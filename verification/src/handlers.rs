//! Running the operations of a compound request.

use crate::args::{
    CloseArgs, CommitArgs, CreateArgs, CreateSessionArgs, ExchangeIdArgs, List, LocktArgs,
    LockuArgs, OpenDowngradeArgs, ReadArgs, ReaddirArgs, ReleaseLockownerArgs, RenameArgs,
    SequenceArgs, SetattrArgs, SetclientidArgs, SetclientidConfirmArgs, WriteArgs,
};
use crate::bytes::Reader;
use crate::compound::{CompoundContext, CompoundHandler, Nfs4Op};
use crate::error::{Nfs4Error, Nfs4Result, Nfs4Status};
use crate::op_open::{has_read_open, OpenRequest, Opening};
use crate::ops::{answers_with, give_up, gives_up, has_read, pass_on, read_args, OpStep, OpTask};
use crate::storage::FsAnswer;
use crate::types::{Fattr4, Nfs4FileHandle, Sessionid4, Stateid4};
use vstd::prelude::*;

verus! {

impl CompoundHandler {
    /// Whether an operation has failed and nothing else has happened.
    pub open spec fn has_refused(
        &self,
        before: &CompoundHandler,
        ctx: CompoundContext,
        ctx2: CompoundContext,
        step: OpStep,
        e: Nfs4Error,
    ) -> bool {
        &&& step == (OpStep::Done { result: Err(e) })
        &&& *self == *before
        &&& ctx2 == ctx
    }

    /// What comes of `Setclientid` whose arguments start `s`.
    pub open spec fn ran_setclientid(
        &self,
        before: &CompoundHandler,
        s: Seq<u8>,
        left: Seq<u8>,
        ctx: CompoundContext,
        ctx2: CompoundContext,
        step: OpStep,
    ) -> bool {
        exists|got: Nfs4Result<SetclientidArgs>|
            {
                &&& #[trigger] has_read::<SetclientidArgs>(s, left, got)
                &&& match got {
                    Err(e) => self.has_refused(before, ctx, ctx2, step, e),
                    Ok(args) => {
                        &&& step is Done
                        &&& self.has_set_clientid(before, args, ctx, ctx2, step->result)
                    },
                }
            }
    }

    fn run_setclientid(&mut self, input: &mut Reader<'_>, ctx: &mut CompoundContext) -> (r: OpStep)
        requires
            old(self).wf(),
        ensures
            final(self).wf(),
            final(self).ran_setclientid(
                old(self),
                old(input)@,
                final(input)@,
                *old(ctx),
                *final(ctx),
                r,
            ),
    {
        let ghost s = input@;
        let got = read_args::<SetclientidArgs>(input);
        assert(has_read::<SetclientidArgs>(s, input@, got));
        match got {
            Err(e) => pass_on(e),
            Ok(args) => OpStep::Done { result: self.op_setclientid(ctx, args) },
        }
    }

    /// What comes of `SetclientidConfirm` whose arguments start `s`.
    pub open spec fn ran_setclientid_confirm(
        &self,
        before: &CompoundHandler,
        s: Seq<u8>,
        left: Seq<u8>,
        ctx: CompoundContext,
        ctx2: CompoundContext,
        step: OpStep,
    ) -> bool {
        exists|got: Nfs4Result<SetclientidConfirmArgs>|
            {
                &&& #[trigger] has_read::<SetclientidConfirmArgs>(s, left, got)
                &&& match got {
                    Err(e) => self.has_refused(before, ctx, ctx2, step, e),
                    Ok(args) => {
                        &&& step is Done
                        &&& self.has_confirmed_client(before, args.clientid, ctx, ctx2, step->result)
                    },
                }
            }
    }

    fn run_setclientid_confirm(
        &mut self,
        input: &mut Reader<'_>,
        ctx: &mut CompoundContext,
    ) -> (r: OpStep)
        requires
            old(self).wf(),
        ensures
            final(self).wf(),
            final(self).ran_setclientid_confirm(
                old(self),
                old(input)@,
                final(input)@,
                *old(ctx),
                *final(ctx),
                r,
            ),
    {
        let ghost s = input@;
        let got = read_args::<SetclientidConfirmArgs>(input);
        assert(has_read::<SetclientidConfirmArgs>(s, input@, got));
        match got {
            Err(e) => pass_on(e),
            Ok(args) => OpStep::Done { result: self.op_setclientid_confirm(ctx, args) },
        }
    }

    /// What comes of `Renew` whose arguments start `s`.
    pub open spec fn ran_renew(
        &self,
        before: &CompoundHandler,
        s: Seq<u8>,
        left: Seq<u8>,
        ctx: CompoundContext,
        ctx2: CompoundContext,
        step: OpStep,
    ) -> bool {
        exists|got: Nfs4Result<u64>|
            {
                &&& #[trigger] has_read::<u64>(s, left, got)
                &&& match got {
                    Err(e) => self.has_refused(before, ctx, ctx2, step, e),
                    Ok(args) => {
                        &&& step is Done
                        &&& self.has_renewed(before, args, ctx, ctx2, step->result)
                    },
                }
            }
    }

    fn run_renew(&mut self, input: &mut Reader<'_>, ctx: &mut CompoundContext) -> (r: OpStep)
        requires
            old(self).wf(),
        ensures
            final(self).wf(),
            final(self).ran_renew(
                old(self),
                old(input)@,
                final(input)@,
                *old(ctx),
                *final(ctx),
                r,
            ),
    {
        let ghost s = input@;
        let got = read_args::<u64>(input);
        assert(has_read::<u64>(s, input@, got));
        match got {
            Err(e) => pass_on(e),
            Ok(args) => OpStep::Done { result: self.op_renew(ctx, args) },
        }
    }

    /// What comes of `Sequence` whose arguments start `s`.
    pub open spec fn ran_sequence(
        &self,
        before: &CompoundHandler,
        s: Seq<u8>,
        left: Seq<u8>,
        ctx: CompoundContext,
        ctx2: CompoundContext,
        step: OpStep,
    ) -> bool {
        exists|got: Nfs4Result<SequenceArgs>|
            {
                &&& #[trigger] has_read::<SequenceArgs>(s, left, got)
                &&& match got {
                    Err(e) => self.has_refused(before, ctx, ctx2, step, e),
                    Ok(args) => self.has_sequenced(before, args, ctx, ctx2, step),
                }
            }
    }

    fn run_sequence(&mut self, input: &mut Reader<'_>, ctx: &mut CompoundContext) -> (r: OpStep)
        requires
            old(self).wf(),
        ensures
            final(self).wf(),
            final(self).ran_sequence(
                old(self),
                old(input)@,
                final(input)@,
                *old(ctx),
                *final(ctx),
                r,
            ),
    {
        let ghost s = input@;
        let got = read_args::<SequenceArgs>(input);
        assert(has_read::<SequenceArgs>(s, input@, got));
        match got {
            Err(e) => pass_on(e),
            Ok(args) => self.op_sequence(ctx, args),
        }
    }

    /// What comes of `ExchangeId` whose arguments start `s`.
    pub open spec fn ran_exchange_id(
        &self,
        before: &CompoundHandler,
        s: Seq<u8>,
        left: Seq<u8>,
        ctx: CompoundContext,
        ctx2: CompoundContext,
        step: OpStep,
    ) -> bool {
        exists|got: Nfs4Result<ExchangeIdArgs>|
            {
                &&& #[trigger] has_read::<ExchangeIdArgs>(s, left, got)
                &&& match got {
                    Err(e) => self.has_refused(before, ctx, ctx2, step, e),
                    Ok(args) => {
                        &&& step is Done
                        &&& self.has_exchanged(before, args, step->result)
                        &&& ctx2 == ctx
                    },
                }
            }
    }

    fn run_exchange_id(&mut self, input: &mut Reader<'_>, ctx: &mut CompoundContext) -> (r: OpStep)
        requires
            old(self).wf(),
        ensures
            final(self).wf(),
            final(self).ran_exchange_id(
                old(self),
                old(input)@,
                final(input)@,
                *old(ctx),
                *final(ctx),
                r,
            ),
    {
        let ghost s = input@;
        let got = read_args::<ExchangeIdArgs>(input);
        assert(has_read::<ExchangeIdArgs>(s, input@, got));
        match got {
            Err(e) => pass_on(e),
            Ok(args) => OpStep::Done { result: self.op_exchange_id(args) },
        }
    }

    /// What comes of `CreateSession` whose arguments start `s`.
    pub open spec fn ran_create_session(
        &self,
        before: &CompoundHandler,
        s: Seq<u8>,
        left: Seq<u8>,
        ctx: CompoundContext,
        ctx2: CompoundContext,
        step: OpStep,
    ) -> bool {
        exists|got: Nfs4Result<CreateSessionArgs>|
            {
                &&& #[trigger] has_read::<CreateSessionArgs>(s, left, got)
                &&& match got {
                    Err(e) => self.has_refused(before, ctx, ctx2, step, e),
                    Ok(args) => {
                        &&& step is Done
                        &&& self.has_made_session(before, args, step->result)
                        &&& ctx2 == ctx
                    },
                }
            }
    }

    fn run_create_session(
        &mut self,
        input: &mut Reader<'_>,
        ctx: &mut CompoundContext,
    ) -> (r: OpStep)
        requires
            old(self).wf(),
        ensures
            final(self).wf(),
            final(self).ran_create_session(
                old(self),
                old(input)@,
                final(input)@,
                *old(ctx),
                *final(ctx),
                r,
            ),
    {
        let ghost s = input@;
        let got = read_args::<CreateSessionArgs>(input);
        assert(has_read::<CreateSessionArgs>(s, input@, got));
        match got {
            Err(e) => pass_on(e),
            Ok(args) => OpStep::Done { result: self.op_create_session(args) },
        }
    }

    /// What comes of `DestroySession` whose arguments start `s`.
    pub open spec fn ran_destroy_session(
        &self,
        before: &CompoundHandler,
        s: Seq<u8>,
        left: Seq<u8>,
        ctx: CompoundContext,
        ctx2: CompoundContext,
        step: OpStep,
    ) -> bool {
        exists|got: Nfs4Result<Sessionid4>|
            {
                &&& #[trigger] has_read::<Sessionid4>(s, left, got)
                &&& match got {
                    Err(e) => self.has_refused(before, ctx, ctx2, step, e),
                    Ok(args) => {
                        &&& step is Done
                        &&& self.destroy_session_result(before, args, step->result)
                        &&& ctx2 == ctx
                    },
                }
            }
    }

    fn run_destroy_session(
        &mut self,
        input: &mut Reader<'_>,
        ctx: &mut CompoundContext,
    ) -> (r: OpStep)
        requires
            old(self).wf(),
        ensures
            final(self).wf(),
            final(self).ran_destroy_session(
                old(self),
                old(input)@,
                final(input)@,
                *old(ctx),
                *final(ctx),
                r,
            ),
    {
        let ghost s = input@;
        let got = read_args::<Sessionid4>(input);
        assert(has_read::<Sessionid4>(s, input@, got));
        match got {
            Err(e) => pass_on(e),
            Ok(args) => OpStep::Done { result: self.op_destroy_session(&args) },
        }
    }

    /// What comes of `Putfh` whose arguments start `s`.
    pub open spec fn ran_putfh(
        &self,
        before: &CompoundHandler,
        s: Seq<u8>,
        left: Seq<u8>,
        ctx: CompoundContext,
        ctx2: CompoundContext,
        step: OpStep,
    ) -> bool {
        exists|got: Nfs4Result<Nfs4FileHandle>|
            {
                &&& #[trigger] has_read::<Nfs4FileHandle>(s, left, got)
                &&& match got {
                    Err(e) => self.has_refused(before, ctx, ctx2, step, e),
                    Ok(args) => {
                        &&& step is Done
                        &&& *self == *before
                        &&& before.putfh_result(ctx, ctx2, args, step->result)
                    },
                }
            }
    }

    fn run_putfh(&mut self, input: &mut Reader<'_>, ctx: &mut CompoundContext) -> (r: OpStep)
        requires
            old(self).wf(),
        ensures
            final(self).wf(),
            final(self).ran_putfh(
                old(self),
                old(input)@,
                final(input)@,
                *old(ctx),
                *final(ctx),
                r,
            ),
    {
        let ghost s = input@;
        let got = read_args::<Nfs4FileHandle>(input);
        assert(has_read::<Nfs4FileHandle>(s, input@, got));
        match got {
            Err(e) => pass_on(e),
            Ok(args) => OpStep::Done { result: self.op_putfh(ctx, args) },
        }
    }

    /// What comes of `SecinfoNoName` whose arguments start `s`.
    pub open spec fn ran_secinfo_no_name(
        &self,
        before: &CompoundHandler,
        s: Seq<u8>,
        left: Seq<u8>,
        ctx: CompoundContext,
        ctx2: CompoundContext,
        step: OpStep,
    ) -> bool {
        exists|got: Nfs4Result<u32>|
            {
                &&& #[trigger] has_read::<u32>(s, left, got)
                &&& match got {
                    Err(e) => self.has_refused(before, ctx, ctx2, step, e),
                    Ok(args) => {
                        &&& step is Done
                        &&& *self == *before
                        &&& before.secinfo_no_name_result(ctx, ctx2, step->result)
                    },
                }
            }
    }

    fn run_secinfo_no_name(
        &mut self,
        input: &mut Reader<'_>,
        ctx: &mut CompoundContext,
    ) -> (r: OpStep)
        requires
            old(self).wf(),
        ensures
            final(self).wf(),
            final(self).ran_secinfo_no_name(
                old(self),
                old(input)@,
                final(input)@,
                *old(ctx),
                *final(ctx),
                r,
            ),
    {
        let ghost s = input@;
        let got = read_args::<u32>(input);
        assert(has_read::<u32>(s, input@, got));
        match got {
            Err(e) => pass_on(e),
            Ok(args) => OpStep::Done { result: self.op_secinfo_no_name(ctx) },
        }
    }

    /// What comes of `ReclaimComplete` whose arguments start `s`.
    pub open spec fn ran_reclaim_complete(
        &self,
        before: &CompoundHandler,
        s: Seq<u8>,
        left: Seq<u8>,
        ctx: CompoundContext,
        ctx2: CompoundContext,
        step: OpStep,
    ) -> bool {
        exists|got: Nfs4Result<u32>|
            {
                &&& #[trigger] has_read::<u32>(s, left, got)
                &&& match got {
                    Err(e) => self.has_refused(before, ctx, ctx2, step, e),
                    Ok(args) => {
                        &&& step is Done
                        &&& self.has_noted_reclaim(before, ctx, step->result)
                        &&& ctx2 == ctx
                    },
                }
            }
    }

    fn run_reclaim_complete(
        &mut self,
        input: &mut Reader<'_>,
        ctx: &mut CompoundContext,
    ) -> (r: OpStep)
        requires
            old(self).wf(),
        ensures
            final(self).wf(),
            final(self).ran_reclaim_complete(
                old(self),
                old(input)@,
                final(input)@,
                *old(ctx),
                *final(ctx),
                r,
            ),
    {
        let ghost s = input@;
        let got = read_args::<u32>(input);
        assert(has_read::<u32>(s, input@, got));
        match got {
            Err(e) => pass_on(e),
            Ok(args) => OpStep::Done { result: self.op_reclaim_complete(ctx) },
        }
    }

    /// What comes of `Delegreturn` whose arguments start `s`.
    pub open spec fn ran_delegreturn(
        &self,
        before: &CompoundHandler,
        s: Seq<u8>,
        left: Seq<u8>,
        ctx: CompoundContext,
        ctx2: CompoundContext,
        step: OpStep,
    ) -> bool {
        exists|got: Nfs4Result<Stateid4>|
            {
                &&& #[trigger] has_read::<Stateid4>(s, left, got)
                &&& match got {
                    Err(e) => self.has_refused(before, ctx, ctx2, step, e),
                    Ok(args) => {
                        &&& step is Done
                        &&& self.has_given_delegation_back(before, args, step->result)
                        &&& ctx2 == ctx
                    },
                }
            }
    }

    fn run_delegreturn(&mut self, input: &mut Reader<'_>, ctx: &mut CompoundContext) -> (r: OpStep)
        requires
            old(self).wf(),
        ensures
            final(self).wf(),
            final(self).ran_delegreturn(
                old(self),
                old(input)@,
                final(input)@,
                *old(ctx),
                *final(ctx),
                r,
            ),
    {
        let ghost s = input@;
        let got = read_args::<Stateid4>(input);
        assert(has_read::<Stateid4>(s, input@, got));
        match got {
            Err(e) => pass_on(e),
            Ok(args) => OpStep::Done { result: self.op_delegreturn(&args) },
        }
    }

    /// What comes of `Lockt` whose arguments start `s`.
    pub open spec fn ran_lockt(
        &self,
        before: &CompoundHandler,
        s: Seq<u8>,
        left: Seq<u8>,
        ctx: CompoundContext,
        ctx2: CompoundContext,
        step: OpStep,
    ) -> bool {
        exists|got: Nfs4Result<LocktArgs>|
            {
                &&& #[trigger] has_read::<LocktArgs>(s, left, got)
                &&& match got {
                    Err(e) => self.has_refused(before, ctx, ctx2, step, e),
                    Ok(args) => {
                        &&& step is Done
                        &&& *self == *before
                        &&& ctx2 == ctx
                        &&& before.has_tested(ctx, args, step->result)
                    },
                }
            }
    }

    fn run_lockt(&mut self, input: &mut Reader<'_>, ctx: &mut CompoundContext) -> (r: OpStep)
        requires
            old(self).wf(),
        ensures
            final(self).wf(),
            final(self).ran_lockt(
                old(self),
                old(input)@,
                final(input)@,
                *old(ctx),
                *final(ctx),
                r,
            ),
    {
        let ghost s = input@;
        let got = read_args::<LocktArgs>(input);
        assert(has_read::<LocktArgs>(s, input@, got));
        match got {
            Err(e) => pass_on(e),
            Ok(args) => OpStep::Done { result: self.op_lockt(ctx, args) },
        }
    }

    /// What comes of `Locku` whose arguments start `s`.
    pub open spec fn ran_locku(
        &self,
        before: &CompoundHandler,
        s: Seq<u8>,
        left: Seq<u8>,
        ctx: CompoundContext,
        ctx2: CompoundContext,
        step: OpStep,
    ) -> bool {
        exists|got: Nfs4Result<LockuArgs>|
            {
                &&& #[trigger] has_read::<LockuArgs>(s, left, got)
                &&& match got {
                    Err(e) => self.has_refused(before, ctx, ctx2, step, e),
                    Ok(args) => {
                        &&& step is Done
                        &&& self.has_given_back(before, ctx, args, step->result)
                        &&& ctx2 == ctx
                    },
                }
            }
    }

    fn run_locku(&mut self, input: &mut Reader<'_>, ctx: &mut CompoundContext) -> (r: OpStep)
        requires
            old(self).wf(),
        ensures
            final(self).wf(),
            final(self).ran_locku(
                old(self),
                old(input)@,
                final(input)@,
                *old(ctx),
                *final(ctx),
                r,
            ),
    {
        let ghost s = input@;
        let got = read_args::<LockuArgs>(input);
        assert(has_read::<LockuArgs>(s, input@, got));
        match got {
            Err(e) => pass_on(e),
            Ok(args) => OpStep::Done { result: self.op_locku(ctx, args) },
        }
    }

    /// What comes of `ReleaseLockowner` whose arguments start `s`.
    pub open spec fn ran_release_lockowner(
        &self,
        before: &CompoundHandler,
        s: Seq<u8>,
        left: Seq<u8>,
        ctx: CompoundContext,
        ctx2: CompoundContext,
        step: OpStep,
    ) -> bool {
        exists|got: Nfs4Result<ReleaseLockownerArgs>|
            {
                &&& #[trigger] has_read::<ReleaseLockownerArgs>(s, left, got)
                &&& match got {
                    Err(e) => self.has_refused(before, ctx, ctx2, step, e),
                    Ok(args) => {
                        &&& step is Done
                        &&& self.has_released_owner(before, args, step->result)
                        &&& ctx2 == ctx
                    },
                }
            }
    }

    fn run_release_lockowner(
        &mut self,
        input: &mut Reader<'_>,
        ctx: &mut CompoundContext,
    ) -> (r: OpStep)
        requires
            old(self).wf(),
        ensures
            final(self).wf(),
            final(self).ran_release_lockowner(
                old(self),
                old(input)@,
                final(input)@,
                *old(ctx),
                *final(ctx),
                r,
            ),
    {
        let ghost s = input@;
        let got = read_args::<ReleaseLockownerArgs>(input);
        assert(has_read::<ReleaseLockownerArgs>(s, input@, got));
        match got {
            Err(e) => pass_on(e),
            Ok(args) => OpStep::Done { result: self.op_release_lockowner(args) },
        }
    }

    /// What comes of `Getattr` whose arguments start `s`.
    pub open spec fn ran_getattr(
        &self,
        before: &CompoundHandler,
        s: Seq<u8>,
        left: Seq<u8>,
        ctx: CompoundContext,
        ctx2: CompoundContext,
        step: OpStep,
    ) -> bool {
        exists|got: Nfs4Result<List<u32>>|
            {
                &&& #[trigger] has_read::<List<u32>>(s, left, got)
                &&& match got {
                    Err(e) => self.has_refused(before, ctx, ctx2, step, e),
                    Ok(args) => {
                        &&& *self == *before
                        &&& ctx2 == ctx
                        &&& before.getattr_step(ctx, args, step)
                    },
                }
            }
    }

    fn run_getattr(&mut self, input: &mut Reader<'_>, ctx: &mut CompoundContext) -> (r: OpStep)
        requires
            old(self).wf(),
        ensures
            final(self).wf(),
            final(self).ran_getattr(
                old(self),
                old(input)@,
                final(input)@,
                *old(ctx),
                *final(ctx),
                r,
            ),
    {
        let ghost s = input@;
        let got = read_args::<List<u32>>(input);
        assert(has_read::<List<u32>>(s, input@, got));
        match got {
            Err(e) => pass_on(e),
            Ok(args) => self.op_getattr(ctx, args),
        }
    }

    /// What comes of `Lookup` whose arguments start `s`.
    pub open spec fn ran_lookup(
        &self,
        before: &CompoundHandler,
        s: Seq<u8>,
        left: Seq<u8>,
        ctx: CompoundContext,
        ctx2: CompoundContext,
        step: OpStep,
    ) -> bool {
        exists|got: Nfs4Result<Vec<u8>>|
            {
                &&& #[trigger] has_read::<Vec<u8>>(s, left, got)
                &&& match got {
                    Err(e) => self.has_refused(before, ctx, ctx2, step, e),
                    Ok(args) => {
                        &&& *self == *before
                        &&& ctx2 == ctx
                        &&& before.lookup_step(ctx, args, step)
                    },
                }
            }
    }

    fn run_lookup(&mut self, input: &mut Reader<'_>, ctx: &mut CompoundContext) -> (r: OpStep)
        requires
            old(self).wf(),
        ensures
            final(self).wf(),
            final(self).ran_lookup(
                old(self),
                old(input)@,
                final(input)@,
                *old(ctx),
                *final(ctx),
                r,
            ),
    {
        let ghost s = input@;
        let got = read_args::<Vec<u8>>(input);
        assert(has_read::<Vec<u8>>(s, input@, got));
        match got {
            Err(e) => pass_on(e),
            Ok(args) => self.op_lookup(ctx, args),
        }
    }

    /// What comes of `OpenDowngrade` whose arguments start `s`.
    pub open spec fn ran_open_downgrade(
        &self,
        before: &CompoundHandler,
        s: Seq<u8>,
        left: Seq<u8>,
        ctx: CompoundContext,
        ctx2: CompoundContext,
        step: OpStep,
    ) -> bool {
        exists|got: Nfs4Result<OpenDowngradeArgs>|
            {
                &&& #[trigger] has_read::<OpenDowngradeArgs>(s, left, got)
                &&& match got {
                    Err(e) => self.has_refused(before, ctx, ctx2, step, e),
                    Ok(args) => {
                        &&& *self == *before
                        &&& ctx2 == ctx
                        &&& before.open_downgrade_step(ctx, args, step)
                    },
                }
            }
    }

    fn run_open_downgrade(
        &mut self,
        input: &mut Reader<'_>,
        ctx: &mut CompoundContext,
    ) -> (r: OpStep)
        requires
            old(self).wf(),
        ensures
            final(self).wf(),
            final(self).ran_open_downgrade(
                old(self),
                old(input)@,
                final(input)@,
                *old(ctx),
                *final(ctx),
                r,
            ),
    {
        let ghost s = input@;
        let got = read_args::<OpenDowngradeArgs>(input);
        assert(has_read::<OpenDowngradeArgs>(s, input@, got));
        match got {
            Err(e) => pass_on(e),
            Ok(args) => self.op_open_downgrade(ctx, args),
        }
    }

    /// What comes of `Close` whose arguments start `s`.
    pub open spec fn ran_close(
        &self,
        before: &CompoundHandler,
        s: Seq<u8>,
        left: Seq<u8>,
        ctx: CompoundContext,
        ctx2: CompoundContext,
        step: OpStep,
    ) -> bool {
        exists|got: Nfs4Result<CloseArgs>|
            {
                &&& #[trigger] has_read::<CloseArgs>(s, left, got)
                &&& match got {
                    Err(e) => self.has_refused(before, ctx, ctx2, step, e),
                    Ok(args) => {
                        &&& self.has_begun_to_close(before, args.stateid, step)
                        &&& ctx2 == ctx
                    },
                }
            }
    }

    fn run_close(&mut self, input: &mut Reader<'_>, ctx: &mut CompoundContext) -> (r: OpStep)
        requires
            old(self).wf(),
        ensures
            final(self).wf(),
            final(self).ran_close(
                old(self),
                old(input)@,
                final(input)@,
                *old(ctx),
                *final(ctx),
                r,
            ),
    {
        let ghost s = input@;
        let got = read_args::<CloseArgs>(input);
        assert(has_read::<CloseArgs>(s, input@, got));
        match got {
            Err(e) => pass_on(e),
            Ok(args) => self.op_close(args),
        }
    }

    /// What comes of `Read` whose arguments start `s`.
    pub open spec fn ran_read(
        &self,
        before: &CompoundHandler,
        s: Seq<u8>,
        left: Seq<u8>,
        ctx: CompoundContext,
        ctx2: CompoundContext,
        step: OpStep,
    ) -> bool {
        exists|got: Nfs4Result<ReadArgs>|
            {
                &&& #[trigger] has_read::<ReadArgs>(s, left, got)
                &&& match got {
                    Err(e) => self.has_refused(before, ctx, ctx2, step, e),
                    Ok(args) => {
                        &&& *self == *before
                        &&& ctx2 == ctx
                        &&& before.has_begun_to_read(ctx, args, step)
                    },
                }
            }
    }

    fn run_read(&mut self, input: &mut Reader<'_>, ctx: &mut CompoundContext) -> (r: OpStep)
        requires
            old(self).wf(),
        ensures
            final(self).wf(),
            final(self).ran_read(
                old(self),
                old(input)@,
                final(input)@,
                *old(ctx),
                *final(ctx),
                r,
            ),
    {
        let ghost s = input@;
        let got = read_args::<ReadArgs>(input);
        assert(has_read::<ReadArgs>(s, input@, got));
        match got {
            Err(e) => pass_on(e),
            Ok(args) => self.op_read(ctx, args),
        }
    }

    /// What comes of `Write` whose arguments start `s`.
    pub open spec fn ran_write(
        &self,
        before: &CompoundHandler,
        s: Seq<u8>,
        left: Seq<u8>,
        ctx: CompoundContext,
        ctx2: CompoundContext,
        step: OpStep,
    ) -> bool {
        exists|got: Nfs4Result<WriteArgs>|
            {
                &&& #[trigger] has_read::<WriteArgs>(s, left, got)
                &&& match got {
                    Err(e) => self.has_refused(before, ctx, ctx2, step, e),
                    Ok(args) => {
                        &&& *self == *before
                        &&& ctx2 == ctx
                        &&& before.write_step(ctx, args, step)
                    },
                }
            }
    }

    fn run_write(&mut self, input: &mut Reader<'_>, ctx: &mut CompoundContext) -> (r: OpStep)
        requires
            old(self).wf(),
        ensures
            final(self).wf(),
            final(self).ran_write(
                old(self),
                old(input)@,
                final(input)@,
                *old(ctx),
                *final(ctx),
                r,
            ),
    {
        let ghost s = input@;
        let got = read_args::<WriteArgs>(input);
        assert(has_read::<WriteArgs>(s, input@, got));
        match got {
            Err(e) => pass_on(e),
            Ok(args) => self.op_write(ctx, args),
        }
    }

    /// What comes of `Commit` whose arguments start `s`.
    pub open spec fn ran_commit(
        &self,
        before: &CompoundHandler,
        s: Seq<u8>,
        left: Seq<u8>,
        ctx: CompoundContext,
        ctx2: CompoundContext,
        step: OpStep,
    ) -> bool {
        exists|got: Nfs4Result<CommitArgs>|
            {
                &&& #[trigger] has_read::<CommitArgs>(s, left, got)
                &&& match got {
                    Err(e) => self.has_refused(before, ctx, ctx2, step, e),
                    Ok(args) => {
                        &&& *self == *before
                        &&& ctx2 == ctx
                        &&& before.commit_step(ctx, step)
                    },
                }
            }
    }

    fn run_commit(&mut self, input: &mut Reader<'_>, ctx: &mut CompoundContext) -> (r: OpStep)
        requires
            old(self).wf(),
        ensures
            final(self).wf(),
            final(self).ran_commit(
                old(self),
                old(input)@,
                final(input)@,
                *old(ctx),
                *final(ctx),
                r,
            ),
    {
        let ghost s = input@;
        let got = read_args::<CommitArgs>(input);
        assert(has_read::<CommitArgs>(s, input@, got));
        match got {
            Err(e) => pass_on(e),
            Ok(args) => self.op_commit(ctx),
        }
    }

    /// What comes of `Readdir` whose arguments start `s`.
    pub open spec fn ran_readdir(
        &self,
        before: &CompoundHandler,
        s: Seq<u8>,
        left: Seq<u8>,
        ctx: CompoundContext,
        ctx2: CompoundContext,
        step: OpStep,
    ) -> bool {
        exists|got: Nfs4Result<ReaddirArgs>|
            {
                &&& #[trigger] has_read::<ReaddirArgs>(s, left, got)
                &&& match got {
                    Err(e) => self.has_refused(before, ctx, ctx2, step, e),
                    Ok(args) => {
                        &&& *self == *before
                        &&& ctx2 == ctx
                        &&& before.readdir_step(ctx, args, step)
                    },
                }
            }
    }

    fn run_readdir(&mut self, input: &mut Reader<'_>, ctx: &mut CompoundContext) -> (r: OpStep)
        requires
            old(self).wf(),
        ensures
            final(self).wf(),
            final(self).ran_readdir(
                old(self),
                old(input)@,
                final(input)@,
                *old(ctx),
                *final(ctx),
                r,
            ),
    {
        let ghost s = input@;
        let got = read_args::<ReaddirArgs>(input);
        assert(has_read::<ReaddirArgs>(s, input@, got));
        match got {
            Err(e) => pass_on(e),
            Ok(args) => self.op_readdir(ctx, args),
        }
    }

    /// What comes of `Create` whose arguments start `s`.
    pub open spec fn ran_create(
        &self,
        before: &CompoundHandler,
        s: Seq<u8>,
        left: Seq<u8>,
        ctx: CompoundContext,
        ctx2: CompoundContext,
        step: OpStep,
    ) -> bool {
        exists|got: Nfs4Result<CreateArgs>|
            {
                &&& #[trigger] has_read::<CreateArgs>(s, left, got)
                &&& match got {
                    Err(e) => self.has_refused(before, ctx, ctx2, step, e),
                    Ok(args) => {
                        &&& *self == *before
                        &&& ctx2 == ctx
                        &&& before.has_begun_to_create(ctx, args, step)
                    },
                }
            }
    }

    fn run_create(&mut self, input: &mut Reader<'_>, ctx: &mut CompoundContext) -> (r: OpStep)
        requires
            old(self).wf(),
        ensures
            final(self).wf(),
            final(self).ran_create(
                old(self),
                old(input)@,
                final(input)@,
                *old(ctx),
                *final(ctx),
                r,
            ),
    {
        let ghost s = input@;
        let got = read_args::<CreateArgs>(input);
        assert(has_read::<CreateArgs>(s, input@, got));
        match got {
            Err(e) => pass_on(e),
            Ok(args) => self.op_create(ctx, args),
        }
    }

    /// What comes of `Remove` whose arguments start `s`.
    pub open spec fn ran_remove(
        &self,
        before: &CompoundHandler,
        s: Seq<u8>,
        left: Seq<u8>,
        ctx: CompoundContext,
        ctx2: CompoundContext,
        step: OpStep,
    ) -> bool {
        exists|got: Nfs4Result<Vec<u8>>|
            {
                &&& #[trigger] has_read::<Vec<u8>>(s, left, got)
                &&& match got {
                    Err(e) => self.has_refused(before, ctx, ctx2, step, e),
                    Ok(args) => {
                        &&& *self == *before
                        &&& ctx2 == ctx
                        &&& before.remove_step(ctx, args, step)
                    },
                }
            }
    }

    fn run_remove(&mut self, input: &mut Reader<'_>, ctx: &mut CompoundContext) -> (r: OpStep)
        requires
            old(self).wf(),
        ensures
            final(self).wf(),
            final(self).ran_remove(
                old(self),
                old(input)@,
                final(input)@,
                *old(ctx),
                *final(ctx),
                r,
            ),
    {
        let ghost s = input@;
        let got = read_args::<Vec<u8>>(input);
        assert(has_read::<Vec<u8>>(s, input@, got));
        match got {
            Err(e) => pass_on(e),
            Ok(args) => self.op_remove(ctx, args),
        }
    }

    /// What comes of `Rename` whose arguments start `s`.
    pub open spec fn ran_rename(
        &self,
        before: &CompoundHandler,
        s: Seq<u8>,
        left: Seq<u8>,
        ctx: CompoundContext,
        ctx2: CompoundContext,
        step: OpStep,
    ) -> bool {
        exists|got: Nfs4Result<RenameArgs>|
            {
                &&& #[trigger] has_read::<RenameArgs>(s, left, got)
                &&& match got {
                    Err(e) => self.has_refused(before, ctx, ctx2, step, e),
                    Ok(args) => {
                        &&& *self == *before
                        &&& ctx2 == ctx
                        &&& before.rename_step(ctx, args, step)
                    },
                }
            }
    }

    fn run_rename(&mut self, input: &mut Reader<'_>, ctx: &mut CompoundContext) -> (r: OpStep)
        requires
            old(self).wf(),
        ensures
            final(self).wf(),
            final(self).ran_rename(
                old(self),
                old(input)@,
                final(input)@,
                *old(ctx),
                *final(ctx),
                r,
            ),
    {
        let ghost s = input@;
        let got = read_args::<RenameArgs>(input);
        assert(has_read::<RenameArgs>(s, input@, got));
        match got {
            Err(e) => pass_on(e),
            Ok(args) => self.op_rename(ctx, args),
        }
    }

    /// What comes of `Link` whose arguments start `s`.
    pub open spec fn ran_link(
        &self,
        before: &CompoundHandler,
        s: Seq<u8>,
        left: Seq<u8>,
        ctx: CompoundContext,
        ctx2: CompoundContext,
        step: OpStep,
    ) -> bool {
        exists|got: Nfs4Result<Vec<u8>>|
            {
                &&& #[trigger] has_read::<Vec<u8>>(s, left, got)
                &&& match got {
                    Err(e) => self.has_refused(before, ctx, ctx2, step, e),
                    Ok(args) => {
                        &&& *self == *before
                        &&& ctx2 == ctx
                        &&& before.link_step(ctx, args, step)
                    },
                }
            }
    }

    fn run_link(&mut self, input: &mut Reader<'_>, ctx: &mut CompoundContext) -> (r: OpStep)
        requires
            old(self).wf(),
        ensures
            final(self).wf(),
            final(self).ran_link(
                old(self),
                old(input)@,
                final(input)@,
                *old(ctx),
                *final(ctx),
                r,
            ),
    {
        let ghost s = input@;
        let got = read_args::<Vec<u8>>(input);
        assert(has_read::<Vec<u8>>(s, input@, got));
        match got {
            Err(e) => pass_on(e),
            Ok(args) => self.op_link(ctx, args),
        }
    }

    /// What comes of `Access` whose arguments start `s`.
    pub open spec fn ran_access(
        &self,
        before: &CompoundHandler,
        s: Seq<u8>,
        left: Seq<u8>,
        ctx: CompoundContext,
        ctx2: CompoundContext,
        step: OpStep,
    ) -> bool {
        exists|got: Nfs4Result<u32>|
            {
                &&& #[trigger] has_read::<u32>(s, left, got)
                &&& match got {
                    Err(e) => self.has_refused(before, ctx, ctx2, step, e),
                    Ok(args) => {
                        &&& *self == *before
                        &&& ctx2 == ctx
                        &&& before.access_step(ctx, args, step)
                    },
                }
            }
    }

    fn run_access(&mut self, input: &mut Reader<'_>, ctx: &mut CompoundContext) -> (r: OpStep)
        requires
            old(self).wf(),
        ensures
            final(self).wf(),
            final(self).ran_access(
                old(self),
                old(input)@,
                final(input)@,
                *old(ctx),
                *final(ctx),
                r,
            ),
    {
        let ghost s = input@;
        let got = read_args::<u32>(input);
        assert(has_read::<u32>(s, input@, got));
        match got {
            Err(e) => pass_on(e),
            Ok(args) => self.op_access(ctx, args),
        }
    }

    /// What comes of `Setattr` whose arguments start `s`.
    pub open spec fn ran_setattr(
        &self,
        before: &CompoundHandler,
        s: Seq<u8>,
        left: Seq<u8>,
        ctx: CompoundContext,
        ctx2: CompoundContext,
        step: OpStep,
    ) -> bool {
        exists|got: Nfs4Result<SetattrArgs>|
            {
                &&& #[trigger] has_read::<SetattrArgs>(s, left, got)
                &&& match got {
                    Err(e) => self.has_refused(before, ctx, ctx2, step, e),
                    Ok(args) => {
                        &&& *self == *before
                        &&& ctx2 == ctx
                        &&& before.has_begun_to_set(ctx, args, step)
                    },
                }
            }
    }

    fn run_setattr(&mut self, input: &mut Reader<'_>, ctx: &mut CompoundContext) -> (r: OpStep)
        requires
            old(self).wf(),
        ensures
            final(self).wf(),
            final(self).ran_setattr(
                old(self),
                old(input)@,
                final(input)@,
                *old(ctx),
                *final(ctx),
                r,
            ),
    {
        let ghost s = input@;
        let got = read_args::<SetattrArgs>(input);
        assert(has_read::<SetattrArgs>(s, input@, got));
        match got {
            Err(e) => pass_on(e),
            Ok(args) => self.op_setattr(ctx, args),
        }
    }

    /// What comes of `Secinfo` whose arguments start `s`.
    pub open spec fn ran_secinfo(
        &self,
        before: &CompoundHandler,
        s: Seq<u8>,
        left: Seq<u8>,
        ctx: CompoundContext,
        ctx2: CompoundContext,
        step: OpStep,
    ) -> bool {
        exists|got: Nfs4Result<Vec<u8>>|
            {
                &&& #[trigger] has_read::<Vec<u8>>(s, left, got)
                &&& match got {
                    Err(e) => self.has_refused(before, ctx, ctx2, step, e),
                    Ok(args) => {
                        &&& *self == *before
                        &&& ctx2 == ctx
                        &&& before.secinfo_step(ctx, args, step)
                    },
                }
            }
    }

    fn run_secinfo(&mut self, input: &mut Reader<'_>, ctx: &mut CompoundContext) -> (r: OpStep)
        requires
            old(self).wf(),
        ensures
            final(self).wf(),
            final(self).ran_secinfo(
                old(self),
                old(input)@,
                final(input)@,
                *old(ctx),
                *final(ctx),
                r,
            ),
    {
        let ghost s = input@;
        let got = read_args::<Vec<u8>>(input);
        assert(has_read::<Vec<u8>>(s, input@, got));
        match got {
            Err(e) => pass_on(e),
            Ok(args) => self.op_secinfo(ctx, args),
        }
    }

    /// What comes of `Nverify` whose arguments start `s`.
    pub open spec fn ran_nverify(
        &self,
        before: &CompoundHandler,
        s: Seq<u8>,
        left: Seq<u8>,
        ctx: CompoundContext,
        ctx2: CompoundContext,
        step: OpStep,
    ) -> bool {
        exists|got: Nfs4Result<Fattr4>|
            {
                &&& #[trigger] has_read::<Fattr4>(s, left, got)
                &&& match got {
                    Err(e) => self.has_refused(before, ctx, ctx2, step, e),
                    Ok(args) => {
                        &&& *self == *before
                        &&& ctx2 == ctx
                        &&& before.compare_step(ctx, args, true, step)
                    },
                }
            }
    }

    fn run_nverify(&mut self, input: &mut Reader<'_>, ctx: &mut CompoundContext) -> (r: OpStep)
        requires
            old(self).wf(),
        ensures
            final(self).wf(),
            final(self).ran_nverify(
                old(self),
                old(input)@,
                final(input)@,
                *old(ctx),
                *final(ctx),
                r,
            ),
    {
        let ghost s = input@;
        let got = read_args::<Fattr4>(input);
        assert(has_read::<Fattr4>(s, input@, got));
        match got {
            Err(e) => pass_on(e),
            Ok(args) => self.op_compare(ctx, args, true),
        }
    }

    /// What comes of `Verify` whose arguments start `s`.
    pub open spec fn ran_verify(
        &self,
        before: &CompoundHandler,
        s: Seq<u8>,
        left: Seq<u8>,
        ctx: CompoundContext,
        ctx2: CompoundContext,
        step: OpStep,
    ) -> bool {
        exists|got: Nfs4Result<Fattr4>|
            {
                &&& #[trigger] has_read::<Fattr4>(s, left, got)
                &&& match got {
                    Err(e) => self.has_refused(before, ctx, ctx2, step, e),
                    Ok(args) => {
                        &&& *self == *before
                        &&& ctx2 == ctx
                        &&& before.compare_step(ctx, args, false, step)
                    },
                }
            }
    }

    fn run_verify(&mut self, input: &mut Reader<'_>, ctx: &mut CompoundContext) -> (r: OpStep)
        requires
            old(self).wf(),
        ensures
            final(self).wf(),
            final(self).ran_verify(
                old(self),
                old(input)@,
                final(input)@,
                *old(ctx),
                *final(ctx),
                r,
            ),
    {
        let ghost s = input@;
        let got = read_args::<Fattr4>(input);
        assert(has_read::<Fattr4>(s, input@, got));
        match got {
            Err(e) => pass_on(e),
            Ok(args) => self.op_compare(ctx, args, false),
        }
    }

    /// What comes of an operation whose arguments start `s`. Operations that are not known are not
    /// supported, and one that the numbers that are handed out would not suffice for fails.
    pub open spec fn has_executed(
        &self,
        before: &CompoundHandler,
        op: Nfs4Op,
        s: Seq<u8>,
        left: Seq<u8>,
        ctx: CompoundContext,
        ctx2: CompoundContext,
        step: OpStep,
    ) -> bool {
        if !before.has_room(op) {
            &&& gives_up(step, Nfs4Status::Serverfault)
            &&& *self == *before
            &&& ctx2 == ctx
            &&& left == s
        } else {
            self.has_run(before, op, s, left, ctx, ctx2, step)
        }
    }

    /// What comes of an operation that the numbers that are handed out suffice for.
    #[verifier::opaque]
    pub open spec fn has_run(
        &self,
        before: &CompoundHandler,
        op: Nfs4Op,
        s: Seq<u8>,
        left: Seq<u8>,
        ctx: CompoundContext,
        ctx2: CompoundContext,
        step: OpStep,
    ) -> bool {
        match op {
            Nfs4Op::Setclientid => self.ran_setclientid(before, s, left, ctx, ctx2, step),
            Nfs4Op::SetclientidConfirm => self.ran_setclientid_confirm(before, s, left, ctx, ctx2, step),
            Nfs4Op::Renew => self.ran_renew(before, s, left, ctx, ctx2, step),
            Nfs4Op::Sequence => self.ran_sequence(before, s, left, ctx, ctx2, step),
            Nfs4Op::ExchangeId => self.ran_exchange_id(before, s, left, ctx, ctx2, step),
            Nfs4Op::CreateSession => self.ran_create_session(before, s, left, ctx, ctx2, step),
            Nfs4Op::DestroySession => self.ran_destroy_session(before, s, left, ctx, ctx2, step),
            Nfs4Op::Putfh => self.ran_putfh(before, s, left, ctx, ctx2, step),
            Nfs4Op::SecinfoNoName => self.ran_secinfo_no_name(before, s, left, ctx, ctx2, step),
            Nfs4Op::ReclaimComplete => self.ran_reclaim_complete(before, s, left, ctx, ctx2, step),
            Nfs4Op::Delegreturn => self.ran_delegreturn(before, s, left, ctx, ctx2, step),
            Nfs4Op::Lockt => self.ran_lockt(before, s, left, ctx, ctx2, step),
            Nfs4Op::Locku => self.ran_locku(before, s, left, ctx, ctx2, step),
            Nfs4Op::ReleaseLockowner => self.ran_release_lockowner(before, s, left, ctx, ctx2, step),
            Nfs4Op::Getattr => self.ran_getattr(before, s, left, ctx, ctx2, step),
            Nfs4Op::Lookup => self.ran_lookup(before, s, left, ctx, ctx2, step),
            Nfs4Op::OpenDowngrade => self.ran_open_downgrade(before, s, left, ctx, ctx2, step),
            Nfs4Op::Close => self.ran_close(before, s, left, ctx, ctx2, step),
            Nfs4Op::Read => self.ran_read(before, s, left, ctx, ctx2, step),
            Nfs4Op::Write => self.ran_write(before, s, left, ctx, ctx2, step),
            Nfs4Op::Commit => self.ran_commit(before, s, left, ctx, ctx2, step),
            Nfs4Op::Readdir => self.ran_readdir(before, s, left, ctx, ctx2, step),
            Nfs4Op::Create => self.ran_create(before, s, left, ctx, ctx2, step),
            Nfs4Op::Remove => self.ran_remove(before, s, left, ctx, ctx2, step),
            Nfs4Op::Rename => self.ran_rename(before, s, left, ctx, ctx2, step),
            Nfs4Op::Link => self.ran_link(before, s, left, ctx, ctx2, step),
            Nfs4Op::Access => self.ran_access(before, s, left, ctx, ctx2, step),
            Nfs4Op::Setattr => self.ran_setattr(before, s, left, ctx, ctx2, step),
            Nfs4Op::Secinfo => self.ran_secinfo(before, s, left, ctx, ctx2, step),
            Nfs4Op::Nverify => self.ran_nverify(before, s, left, ctx, ctx2, step),
            Nfs4Op::Verify => self.ran_verify(before, s, left, ctx, ctx2, step),
            Nfs4Op::Putrootfh => {
                &&& left == s
                &&& step is Done
                &&& *self == *before
                &&& before.putrootfh_result(ctx, ctx2, step->result)
            },
            Nfs4Op::Putpubfh => {
                &&& left == s
                &&& step is Done
                &&& *self == *before
                &&& before.putpubfh_result(ctx, ctx2, step->result)
            },
            Nfs4Op::Getfh => {
                &&& left == s
                &&& step is Done
                &&& *self == *before
                &&& ctx2 == ctx
                &&& before.getfh_result(ctx, step->result)
            },
            Nfs4Op::Savefh => {
                &&& left == s
                &&& step is Done
                &&& *self == *before
                &&& Self::savefh_result(ctx, ctx2, step->result)
            },
            Nfs4Op::Restorefh => {
                &&& left == s
                &&& step is Done
                &&& *self == *before
                &&& Self::restorefh_result(ctx, ctx2, step->result)
            },
            Nfs4Op::Lookupp => {
                &&& left == s
                &&& *self == *before
                &&& ctx2 == ctx
                &&& before.lookupp_step(ctx, step)
            },
            Nfs4Op::Readlink => {
                &&& left == s
                &&& *self == *before
                &&& ctx2 == ctx
                &&& before.readlink_step(ctx, step)
            },
            Nfs4Op::Lock => {
                &&& step is Done
                &&& self.has_run_lock(before, ctx, s, left, step->result)
                &&& ctx2 == ctx
            },
            Nfs4Op::Open => {
                &&& *self == *before
                &&& ctx2 == ctx
                &&& exists|q: Nfs4Result<OpenRequest>|
                    {
                        &&& #[trigger] has_read_open(s, left, q)
                        &&& match q {
                            Err(e) => step == (OpStep::Done { result: Err(e) }),
                            Ok(request) => before.has_begun_to_open(ctx, request, step),
                        }
                    }
            },
            Nfs4Op::OpenConfirm => {
                &&& step is Done
                &&& ctx2 == ctx
                &&& self.open_confirm_result(before, s, left, ctx, step->result)
            },
            _ => {
                &&& gives_up(step, Nfs4Status::Notsupp)
                &&& *self == *before
                &&& ctx2 == ctx
                &&& left == s
            },
        }
    }

    /// Begins an operation.
    pub fn execute_operation(
        &mut self,
        op: Nfs4Op,
        input: &mut Reader<'_>,
        ctx: &mut CompoundContext,
    ) -> (r: OpStep)
        requires
            old(self).wf(),
        ensures
            final(self).wf(),
            final(self).has_executed(
                old(self),
                op,
                old(input)@,
                final(input)@,
                *old(ctx),
                *final(ctx),
                r,
            ),
    {
        if !self.can_go_on(op) {
            return give_up(Nfs4Status::Serverfault);
        }
        reveal(CompoundHandler::has_run);
        match op {
            Nfs4Op::Setclientid => self.run_setclientid(input, ctx),
            Nfs4Op::SetclientidConfirm => self.run_setclientid_confirm(input, ctx),
            Nfs4Op::Renew => self.run_renew(input, ctx),
            Nfs4Op::Sequence => self.run_sequence(input, ctx),
            Nfs4Op::ExchangeId => self.run_exchange_id(input, ctx),
            Nfs4Op::CreateSession => self.run_create_session(input, ctx),
            Nfs4Op::DestroySession => self.run_destroy_session(input, ctx),
            Nfs4Op::Putfh => self.run_putfh(input, ctx),
            Nfs4Op::SecinfoNoName => self.run_secinfo_no_name(input, ctx),
            Nfs4Op::ReclaimComplete => self.run_reclaim_complete(input, ctx),
            Nfs4Op::Delegreturn => self.run_delegreturn(input, ctx),
            Nfs4Op::Lockt => self.run_lockt(input, ctx),
            Nfs4Op::Locku => self.run_locku(input, ctx),
            Nfs4Op::ReleaseLockowner => self.run_release_lockowner(input, ctx),
            Nfs4Op::Getattr => self.run_getattr(input, ctx),
            Nfs4Op::Lookup => self.run_lookup(input, ctx),
            Nfs4Op::OpenDowngrade => self.run_open_downgrade(input, ctx),
            Nfs4Op::Close => self.run_close(input, ctx),
            Nfs4Op::Read => self.run_read(input, ctx),
            Nfs4Op::Write => self.run_write(input, ctx),
            Nfs4Op::Commit => self.run_commit(input, ctx),
            Nfs4Op::Readdir => self.run_readdir(input, ctx),
            Nfs4Op::Create => self.run_create(input, ctx),
            Nfs4Op::Remove => self.run_remove(input, ctx),
            Nfs4Op::Rename => self.run_rename(input, ctx),
            Nfs4Op::Link => self.run_link(input, ctx),
            Nfs4Op::Access => self.run_access(input, ctx),
            Nfs4Op::Setattr => self.run_setattr(input, ctx),
            Nfs4Op::Secinfo => self.run_secinfo(input, ctx),
            Nfs4Op::Nverify => self.run_nverify(input, ctx),
            Nfs4Op::Verify => self.run_verify(input, ctx),
            Nfs4Op::Putrootfh => OpStep::Done { result: self.op_putrootfh(ctx) },
            Nfs4Op::Putpubfh => OpStep::Done { result: self.op_putpubfh(ctx) },
            Nfs4Op::Getfh => OpStep::Done { result: self.op_getfh(ctx) },
            Nfs4Op::Savefh => OpStep::Done { result: Self::op_savefh(ctx) },
            Nfs4Op::Restorefh => OpStep::Done { result: Self::op_restorefh(ctx) },
            Nfs4Op::Lookupp => self.op_lookupp(ctx),
            Nfs4Op::Readlink => self.op_readlink(ctx),
            Nfs4Op::Lock => OpStep::Done { result: self.op_lock(input, ctx) },
            Nfs4Op::Open => self.op_open(input, ctx),
            Nfs4Op::OpenConfirm => OpStep::Done { result: self.op_open_confirm(input, ctx) },
            _ => give_up(Nfs4Status::Notsupp),
        }
    }

    /// How an operation goes on whose call is over. One that the numbers that are handed out would
    /// not suffice for fails.
    #[verifier::opaque]
    pub open spec fn has_resumed(
        &self,
        before: &CompoundHandler,
        task: OpTask,
        answer: Nfs4Result<FsAnswer>,
        ctx: CompoundContext,
        ctx2: CompoundContext,
        step: OpStep,
    ) -> bool {
        match task {
            OpTask::Getattr { fileid, request } => {
                &&& *self == *before
                &&& ctx2 == ctx
                &&& Self::getattr_status_step(fileid, request, answer, step)
            },
            OpTask::GetattrPos { request, status } => {
                &&& *self == *before
                &&& ctx2 == ctx
                &&& Self::getattr_pos_step(ctx, request, status, answer, step)
            },
            OpTask::Lookup => {
                &&& *self == *before
                &&& before.lookup_done_step(ctx, ctx2, answer, step)
            },
            OpTask::Access { access } => {
                &&& *self == *before
                &&& ctx2 == ctx
                &&& Self::access_done_step(access, answer, step)
            },
            OpTask::CommitCheck { fileid } => {
                &&& *self == *before
                &&& ctx2 == ctx
                &&& Self::commit_check_step(fileid, answer, step)
            },
            OpTask::Committing => {
                &&& *self == *before
                &&& ctx2 == ctx
                &&& before.commit_done_step(answer, step)
            },
            OpTask::Readlink => {
                &&& *self == *before
                &&& ctx2 == ctx
                &&& Self::readlink_done_step(answer, step)
            },
            OpTask::Link => {
                &&& *self == *before
                &&& ctx2 == ctx
                &&& Self::link_done_step(answer, step)
            },
            OpTask::Secinfo => {
                &&& *self == *before
                &&& ctx2 == ctx
                &&& answers_with(step, crate::bytes::be32(1) + crate::bytes::be32(1))
            },
            OpTask::Compare { fattr, differ } => {
                &&& *self == *before
                &&& ctx2 == ctx
                &&& Self::compare_done_step(ctx, fattr, differ, answer, step)
            },
            OpTask::Setattr { mask } => {
                &&& *self == *before
                &&& ctx2 == ctx
                &&& Self::setattr_done_step(mask, answer, step)
            },
            OpTask::RemoveBefore { parent, name } => {
                &&& *self == *before
                &&& ctx2 == ctx
                &&& Self::remove_before_step(parent, name, answer, step)
            },
            OpTask::Removing { parent, before: change } => {
                &&& *self == *before
                &&& ctx2 == ctx
                &&& Self::removing_done_step(parent, change, answer, step)
            },
            OpTask::Removed { before: change } => {
                &&& *self == *before
                &&& ctx2 == ctx
                &&& Self::removed_step(change, answer, step)
            },
            OpTask::RenameFrom { from, from_name, to, to_name } => {
                &&& *self == *before
                &&& ctx2 == ctx
                &&& Self::rename_from_step(from, from_name, to, to_name, answer, step)
            },
            OpTask::RenameTo { from, from_name, to, to_name, from_before } => {
                &&& *self == *before
                &&& ctx2 == ctx
                &&& Self::rename_to_step(from, from_name, to, to_name, from_before, answer, step)
            },
            OpTask::Renaming { from, to, from_before, to_before } => {
                &&& *self == *before
                &&& ctx2 == ctx
                &&& Self::renaming_done_step(from, to, from_before, to_before, answer, step)
            },
            OpTask::RenamedFrom { to, from_before, to_before } => {
                &&& *self == *before
                &&& ctx2 == ctx
                &&& Self::renamed_from_step(to, from_before, to_before, answer, step)
            },
            OpTask::RenamedTo { from_before, from_after, to_before } => {
                &&& *self == *before
                &&& ctx2 == ctx
                &&& Self::renamed_to_step(from_before, from_after, to_before, answer, step)
            },
            OpTask::ReadCheck { fileid, args } => {
                &&& *self == *before
                &&& ctx2 == ctx
                &&& before.read_check_step(fileid, args, answer, step)
            },
            OpTask::Reading { fileid, whole } => {
                &&& ctx2 == ctx
                &&& self.reading_done_step(before, fileid, whole, answer, step)
            },
            OpTask::WriteCheck { fileid, args } => {
                &&& *self == *before
                &&& ctx2 == ctx
                &&& before.write_check_step(fileid, args, answer, step)
            },
            OpTask::Writing { fileid } => {
                &&& ctx2 == ctx
                &&& self.writing_done_step(before, fileid, answer, step)
            },
            OpTask::Readdir { maxcount, request } => {
                &&& *self == *before
                &&& ctx2 == ctx
                &&& Self::readdir_done_step(maxcount, request, answer, step)
            },
            OpTask::CreateCheck { parent, making } => {
                &&& *self == *before
                &&& ctx2 == ctx
                &&& Self::create_check_step(parent, making, answer, step)
            },
            OpTask::Creating { parent, set, mask, before: change } => {
                &&& *self == *before
                &&& ctx2 == ctx
                &&& Self::creating_done_step(parent, set, mask, change, answer, step)
            },
            OpTask::CreateSet { parent, fileid, mask, before: change } => {
                &&& *self == *before
                &&& before.create_set_done_step(
                    ctx,
                    ctx2,
                    parent,
                    fileid,
                    mask,
                    change,
                    answer,
                    step,
                )
            },
            OpTask::Created { mask, before: change } => {
                &&& *self == *before
                &&& ctx2 == ctx
                &&& Self::created_step(mask, change, answer, step)
            },
            OpTask::DowngradeCheck { args } => {
                &&& ctx2 == ctx
                &&& self.downgrade_check_step(before, args, answer, step)
            },
            OpTask::Closing { stateid } => {
                &&& *self == *before
                &&& Self::closing_done_step(ctx, ctx2, stateid, answer, step)
            },
            OpTask::Open(opening) => self.has_resumed_open(
                before,
                opening,
                answer,
                ctx,
                ctx2,
                step,
            ),
        }
    }

    /// How opening a file goes on.
    pub open spec fn has_resumed_open(
        &self,
        before: &CompoundHandler,
        opening: Opening,
        answer: Nfs4Result<FsAnswer>,
        ctx: CompoundContext,
        ctx2: CompoundContext,
        step: OpStep,
    ) -> bool {
        if !before.can_open() {
            gives_up(step, Nfs4Status::Serverfault) && *self == *before && ctx2 == ctx
        } else {
            match opening {
                Opening::Delegated { request, dir } => {
                    &&& *self == *before
                    &&& ctx2 == ctx
                    &&& before.open_delegated_step(request, dir, answer, step)
                },
                Opening::Before { request, dir, object } => {
                    &&& ctx2 == ctx
                    &&& self.open_before_step(before, request, dir, object, answer, step)
                },
                Opening::Conflict { request, dir, object, before: change } => {
                    &&& ctx2 == ctx
                    &&& self.has_made_way(
                        before,
                        request,
                        dir,
                        object,
                        change,
                        match answer {
                            Ok(FsAnswer::Found { fileid, .. }) => Some(fileid),
                            _ => None,
                        },
                        false,
                        step,
                    )
                },
                Opening::Waited { request, dir, object, before: change, file } => {
                    &&& ctx2 == ctx
                    &&& self.has_made_way(before, request, dir, object, change, file, true, step)
                },
                Opening::Making { request, object, before: change } => {
                    &&& *self == *before
                    &&& ctx2 == ctx
                    &&& Self::open_making_step(ctx, request, object, change, answer, step)
                },
                Opening::Setting { request, object, before: change, fileid } => {
                    &&& ctx2 == ctx
                    &&& self.open_setting_step(
                        before,
                        request,
                        object,
                        change,
                        fileid,
                        answer,
                        step,
                    )
                },
                Opening::Finding { request, object, before: change } => {
                    &&& ctx2 == ctx
                    &&& self.open_finding_step(before, request, object, change, answer, step)
                },
                Opening::Opened { opened } => self.open_opened_step(
                    before,
                    ctx,
                    ctx2,
                    opened,
                    answer,
                    step,
                ),
                Opening::After { opened, out } => {
                    &&& ctx2 == ctx
                    &&& self.open_after_step(before, ctx, opened, out, answer, step)
                },
                Opening::Kind { opened, out } => {
                    &&& ctx2 == ctx
                    &&& self.open_kind_step(before, opened, out, answer, step)
                },
            }
        }
    }

    fn resume_open(
        &mut self,
        opening: Opening,
        answer: Nfs4Result<FsAnswer>,
        ctx: &mut CompoundContext,
    ) -> (r: OpStep)
        requires
            old(self).wf(),
        ensures
            final(self).wf(),
            final(self).has_resumed_open(old(self), opening, answer, *old(ctx), *final(ctx), r),
    {
        if !self.can_go_on(Nfs4Op::Open) {
            return give_up(Nfs4Status::Serverfault);
        }
        match opening {
            Opening::Delegated { request, dir } => self.open_delegated(request, dir, answer),
            Opening::Before { request, dir, object } => self.open_before(
                request,
                dir,
                object,
                answer,
            ),
            Opening::Conflict { request, dir, object, before } => self.open_conflict(
                request,
                dir,
                object,
                before,
                answer,
            ),
            Opening::Waited { request, dir, object, before, file } => self.make_way(
                request,
                dir,
                object,
                before,
                file,
                true,
            ),
            Opening::Making { request, object, before } => Self::open_making(
                ctx,
                request,
                object,
                before,
                answer,
            ),
            Opening::Setting { request, object, before, fileid } => self.open_setting(
                request,
                object,
                before,
                fileid,
                answer,
            ),
            Opening::Finding { request, object, before } => self.open_finding(
                request,
                object,
                before,
                answer,
            ),
            Opening::Opened { opened } => self.open_opened(ctx, opened, answer),
            Opening::After { opened, out } => self.open_after(ctx, opened, out, answer),
            Opening::Kind { opened, out } => self.open_kind(opened, out, answer),
        }
    }

    /// Goes on with an operation whose call is over.
    pub fn resume_operation(
        &mut self,
        task: OpTask,
        answer: Nfs4Result<FsAnswer>,
        ctx: &mut CompoundContext,
    ) -> (r: OpStep)
        requires
            old(self).wf(),
        ensures
            final(self).wf(),
            final(self).has_resumed(old(self), task, answer, *old(ctx), *final(ctx), r),
    {
        reveal(CompoundHandler::has_resumed);
        match task {
            OpTask::Getattr { fileid, request } => Self::getattr_status(fileid, request, answer),
            OpTask::GetattrPos { request, status } => Self::getattr_pos(
                ctx,
                request,
                status,
                answer,
            ),
            OpTask::Lookup => self.lookup_done(ctx, answer),
            OpTask::Access { access } => Self::access_done(access, answer),
            OpTask::CommitCheck { fileid } => Self::commit_check(fileid, answer),
            OpTask::Committing => self.commit_done(answer),
            OpTask::Readlink => Self::readlink_done(answer),
            OpTask::Link => Self::link_done(answer),
            OpTask::Secinfo => Self::secinfo_done(),
            OpTask::Compare { fattr, differ } => Self::compare_done(ctx, fattr, differ, answer),
            OpTask::Setattr { mask } => Self::setattr_done(mask, answer),
            OpTask::RemoveBefore { parent, name } => Self::remove_before(parent, name, answer),
            OpTask::Removing { parent, before } => Self::removing_done(parent, before, answer),
            OpTask::Removed { before } => Self::removed(before, answer),
            OpTask::RenameFrom { from, from_name, to, to_name } => Self::rename_from(
                from,
                from_name,
                to,
                to_name,
                answer,
            ),
            OpTask::RenameTo { from, from_name, to, to_name, from_before } => Self::rename_to(
                from,
                from_name,
                to,
                to_name,
                from_before,
                answer,
            ),
            OpTask::Renaming { from, to, from_before, to_before } => Self::renaming_done(
                from,
                to,
                from_before,
                to_before,
                answer,
            ),
            OpTask::RenamedFrom { to, from_before, to_before } => Self::renamed_from(
                to,
                from_before,
                to_before,
                answer,
            ),
            OpTask::RenamedTo { from_before, from_after, to_before } => Self::renamed_to(
                from_before,
                from_after,
                to_before,
                answer,
            ),
            OpTask::ReadCheck { fileid, args } => self.read_check(fileid, args, answer),
            OpTask::Reading { fileid, whole } => self.reading_done(fileid, whole, answer),
            OpTask::WriteCheck { fileid, args } => self.write_check(fileid, args, answer),
            OpTask::Writing { fileid } => self.writing_done(fileid, answer),
            OpTask::Readdir { maxcount, request } => Self::readdir_done(maxcount, request, answer),
            OpTask::CreateCheck { parent, making } => Self::create_check(parent, making, answer),
            OpTask::Creating { parent, set, mask, before } => Self::creating_done(
                parent,
                set,
                mask,
                before,
                answer,
            ),
            OpTask::CreateSet { parent, fileid, mask, before } => self.create_set_done(
                ctx,
                parent,
                fileid,
                mask,
                before,
                answer,
            ),
            OpTask::Created { mask, before } => Self::created(mask, before, answer),
            OpTask::DowngradeCheck { args } => self.downgrade_check(args, answer),
            OpTask::Closing { stateid } => Self::closing_done(ctx, stateid, answer),
            OpTask::Open(opening) => self.resume_open(opening, answer, ctx),
        }
    }
}

} // verus!
