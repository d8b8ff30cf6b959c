//! The operations on ranges of files.

use crate::args::{LockHead, LocktArgs, LockuArgs, NewLocker, OldLocker, ReleaseLockownerArgs};
use crate::bytes::{be32, be64, key12, put_u32, put_u64, Reader};
use crate::compound::{CompoundContext, CompoundHandler};
use crate::error::{failure, fails_with, Nfs4Error, Nfs4Result, Nfs4Status};
use crate::grace::GracePeriodManager;
use crate::lock::{copied, LockState, LockType4};
use crate::open::{SHARE_READ, SHARE_WRITE};
use crate::ops::{gives, has_read, read_args, stateid_reply};
use crate::time::Duration;
use crate::types::{Fileid4, LockOwner4, Stateid4};
use crate::xdr::{Decode, XDR};
use vstd::prelude::*;

verus! {

broadcast use vstd::std_specs::hash::group_hash_axioms;

/// Who asks for a lock.
pub enum Locker {
    /// One that has none yet, by the file that it has open.
    New(NewLocker),
    /// One that has some.
    Old(OldLocker),
}

impl Locker {
    /// What the locks go by that are there already, if any are.
    pub open spec fn known(self) -> Option<Stateid4> {
        match self {
            Locker::Old(o) => Some(o.lock_stateid),
            Locker::New(_) => None,
        }
    }
}

/// Whether a client is ready to wait for a lock.
pub open spec fn waits(kind: LockType4) -> bool {
    kind == LockType4::ReadwLt || kind == LockType4::WritewLt
}

/// Whether a range cannot be locked: it is empty, or it ends behind the last byte there can be
/// without meaning "to the end".
pub open spec fn bad_range(offset: u64, length: u64) -> bool {
    length == 0 || (length != u64::MAX && offset + length > u64::MAX)
}

fn is_bad_range(offset: u64, length: u64) -> (r: bool)
    ensures
        r == bad_range(offset, length),
{
    length == 0 || (length != u64::MAX && length > u64::MAX - offset)
}

/// What a client is told that may not lock a range: what stands in its way, and whose it is.
pub open spec fn denied_bytes(s: LockState, i: int) -> Seq<u8> {
    let e = s.lock_entries@[i];
    be64(e.offset) + be64(e.length) + be32(
        if e.lock_type.writes() {
            2u32
        } else {
            1u32
        },
    ) + s.owner.encoding()
}

/// Whether a range of a state is the first in a file that meets a range.
pub open spec fn first_met(
    s: LockState,
    fileid: Fileid4,
    offset: u64,
    length: u64,
    i: int,
) -> bool {
    &&& 0 <= i < s.lock_entries@.len()
    &&& s.lock_entries@[i].fileid == fileid
    &&& s.lock_entries@[i].meets(offset, length)
    &&& forall|j: int|
        0 <= j < i ==> !((#[trigger] s.lock_entries@[j]).fileid == fileid
            && s.lock_entries@[j].meets(offset, length))
}

/// Whether an operation has failed because a range is locked, and says by what.
pub open spec fn is_denied(r: Nfs4Result<Vec<u8>>, data: Seq<u8>) -> bool {
    &&& r is Err
    &&& r->Err_0.status == Nfs4Status::Denied
    &&& r->Err_0.message is None
    &&& r->Err_0.data is Some
    &&& r->Err_0.data->Some_0@ == data
}

impl CompoundHandler {
    /// Only the locks may differ from `before`.
    pub open spec fn same_but_locks(&self, before: &CompoundHandler) -> bool {
        *self == CompoundHandler { locks: self.locks, ..*before }
    }

    /// Why a lock is refused before anything else is looked at, if it is.
    pub open spec fn lock_fault(
        &self,
        ctx: CompoundContext,
        head: LockHead,
        locker: Locker,
    ) -> Option<Nfs4Status> {
        let kind = LockType4::of_code(head.locktype);
        let state = match locker {
            Locker::Old(o) => self.locks.lock_states@.contains_key(key12(o.lock_stateid.other@)),
            Locker::New(_) => true,
        };
        if !state {
            Some(Nfs4Status::BadStateid)
        } else {
            match self.target(ctx) {
                Err(st) => Some(st),
                Ok(_) => if bad_range(head.offset, head.length) {
                    Some(Nfs4Status::Inval)
                } else {
                    match locker {
                        Locker::Old(_) => None,
                        Locker::New(n) => match self.opens.fault(n.open_stateid) {
                            Some(st) => Some(st),
                            None => {
                                let access = self.opens.states@[key12(
                                    n.open_stateid.other@,
                                )].share_access;
                                let needed = if kind.writes() {
                                    SHARE_WRITE
                                } else {
                                    SHARE_READ
                                };
                                if access & needed == 0 {
                                    Some(Nfs4Status::Openmode)
                                } else {
                                    None
                                }
                            },
                        },
                    }
                },
            }
        }
    }

    /// Whether `owner` is who asks for a lock.
    pub open spec fn asks(&self, locker: Locker, owner: LockOwner4) -> bool {
        match locker {
            Locker::New(n) => owner.clientid == n.clientid && owner.owner@ == n.owner@,
            Locker::Old(o) => owner.same(
                &self.locks.lock_states@[key12(o.lock_stateid.other@)].owner,
            ),
        }
    }

    /// What asking for a lock comes to.
    pub open spec fn has_asked_for_lock(
        &self,
        before: &CompoundHandler,
        ctx: CompoundContext,
        head: LockHead,
        locker: Locker,
        r: Nfs4Result<Vec<u8>>,
    ) -> bool {
        let kind = LockType4::of_code(head.locktype);
        match before.lock_fault(ctx, head, locker) {
            Some(st) => fails_with(r, st) && *self == *before,
            None => {
                &&& self.same_but_locks(before)
                &&& exists|now: Duration, owner: LockOwner4, got: Nfs4Result<Stateid4>|
                    {
                        &&& #[trigger] self.locks.has_locked(
                            &before.locks,
                            now,
                            owner,
                            before.target(ctx)->Ok_0,
                            kind,
                            head.offset,
                            head.length,
                            waits(kind),
                            locker.known(),
                            got,
                        )
                        &&& before.asks(locker, owner)
                        &&& match got {
                            Ok(sid) => gives(r, sid.encoding()),
                            Err(e) => r is Err && r->Err_0 == e,
                        }
                    }
            },
        }
    }

    /// Locks a range for a known or a new owner.
    pub fn lock_range(&mut self, ctx: &CompoundContext, head: LockHead, locker: Locker) -> (r:
        Nfs4Result<Vec<u8>>)
        requires
            old(self).wf(),
            old(self).locks.next_stateid < u32::MAX,
        ensures
            final(self).wf(),
            final(self).has_asked_for_lock(old(self), *ctx, head, locker, r),
    {
        let ghost before = *self;
        let owner = match &locker {
            Locker::New(n) => LockOwner4 {
                clientid: n.clientid,
                owner: crate::bytes::bytes_vec(n.owner.as_slice()),
            },
            Locker::Old(o) => match self.locks.get_lock_state(&o.lock_stateid) {
                Some(s) => s.owner.clone(),
                None => {
                    return failure(Nfs4Status::BadStateid);
                },
            },
        };
        let fileid = self.current_file(ctx)?;
        let kind = LockType4::from(head.locktype);
        if is_bad_range(head.offset, head.length) {
            return failure(Nfs4Status::Inval);
        }
        if let Locker::New(n) = &locker {
            let open = self.opens.verify_stateid(&n.open_stateid)?;
            let access: u32 = open.get_access();
            if kind.is_write() && access & SHARE_WRITE == 0 {
                return failure(Nfs4Status::Openmode);
            }
            if !kind.is_write() && access & SHARE_READ == 0 {
                return failure(Nfs4Status::Openmode);
            }
        }
        let existing = match &locker {
            Locker::New(_) => None,
            Locker::Old(o) => Some(&o.lock_stateid),
        };
        let blocking = kind.is_blocking();
        let ghost who = owner;
        let got = self.locks.lock(
            owner.clientid,
            owner.owner,
            fileid,
            kind,
            head.offset,
            head.length,
            blocking,
            existing,
        );
        proof {
            assert(copied(existing) == locker.known());
            assert(who == LockOwner4 { clientid: who.clientid, owner: who.owner });
            let now = choose|now: Duration| #[trigger]
                self.locks.has_locked(
                    &before.locks,
                    now,
                    who,
                    fileid,
                    kind,
                    head.offset,
                    head.length,
                    blocking,
                    locker.known(),
                    got,
                );
            assert(self.locks.has_locked(
                &before.locks,
                now,
                who,
                fileid,
                kind,
                head.offset,
                head.length,
                blocking,
                locker.known(),
                got,
            ));
        }
        assert(before.lock_fault(*ctx, head, locker) is None);
        assert(self.same_but_locks(&before));
        assert(before.asks(locker, who));
        assert(waits(kind) == blocking);
        assert(kind == LockType4::of_code(head.locktype));
        match got {
            Ok(sid) => stateid_reply(&sid),
            Err(e) => Err(e),
        }
    }

    /// Whether a lock waits for the period in which clients take back what they had: one that is
    /// taken back, and one of a new owner.
    pub open spec fn grace_counts(head: LockHead) -> bool {
        head.locker_type == 1 || head.reclaim != 0
    }

    /// What comes of the request for a lock that starts with `s`.
    pub open spec fn has_run_lock(
        &self,
        before: &CompoundHandler,
        ctx: CompoundContext,
        s: Seq<u8>,
        left: Seq<u8>,
        r: Nfs4Result<Vec<u8>>,
    ) -> bool {
        match LockHead::decoded_len(s) {
            Err(_) => fails_with(r, Nfs4Status::Io) && *self == *before,
            Ok(n) => {
                let t = s.skip(n as int);
                exists|head: LockHead| #[trigger]
                    head.decodes_to(s) && {
                        if Self::grace_counts(head) && !before.grace.admits(head.reclaim != 0) {
                            &&& fails_with(r, GracePeriodManager::refusal(head.reclaim != 0))
                            &&& *self == *before
                            &&& left == t
                        } else if head.locker_type == 1 {
                            exists|got: Nfs4Result<NewLocker>|
                                {
                                    &&& #[trigger] has_read::<NewLocker>(t, left, got)
                                    &&& match got {
                                        Ok(n) => self.has_asked_for_lock(
                                            before,
                                            ctx,
                                            head,
                                            Locker::New(n),
                                            r,
                                        ),
                                        Err(e) => r is Err && r->Err_0 == e && *self == *before,
                                    }
                                }
                        } else {
                            exists|got: Nfs4Result<OldLocker>|
                                {
                                    &&& #[trigger] has_read::<OldLocker>(t, left, got)
                                    &&& match got {
                                        Ok(o) => self.has_asked_for_lock(
                                            before,
                                            ctx,
                                            head,
                                            Locker::Old(o),
                                            r,
                                        ),
                                        Err(e) => r is Err && r->Err_0 == e && *self == *before,
                                    }
                                }
                        }
                    }
            },
        }
    }

    fn read_locker_and_lock(
        &mut self,
        input: &mut Reader<'_>,
        ctx: &CompoundContext,
        head: LockHead,
    ) -> (r: Nfs4Result<Vec<u8>>)
        requires
            old(self).wf(),
            old(self).locks.next_stateid < u32::MAX,
        ensures
            final(self).wf(),
            if head.locker_type == 1 {
                exists|got: Nfs4Result<NewLocker>|
                    {
                        &&& #[trigger] has_read::<NewLocker>(old(input)@, final(input)@, got)
                        &&& match got {
                            Ok(n) => final(self).has_asked_for_lock(
                                old(self),
                                *ctx,
                                head,
                                Locker::New(n),
                                r,
                            ),
                            Err(e) => r is Err && r->Err_0 == e && *final(self) == *old(self),
                        }
                    }
            } else {
                exists|got: Nfs4Result<OldLocker>|
                    {
                        &&& #[trigger] has_read::<OldLocker>(old(input)@, final(input)@, got)
                        &&& match got {
                            Ok(o) => final(self).has_asked_for_lock(
                                old(self),
                                *ctx,
                                head,
                                Locker::Old(o),
                                r,
                            ),
                            Err(e) => r is Err && r->Err_0 == e && *final(self) == *old(self),
                        }
                    }
            },
    {
        if head.locker_type == 1 {
            let got = read_args::<NewLocker>(input);
            assert(has_read::<NewLocker>(old(input)@, input@, got));
            match got {
                Ok(n) => self.lock_range(ctx, head, Locker::New(n)),
                Err(e) => Err(e),
            }
        } else {
            let got = read_args::<OldLocker>(input);
            assert(has_read::<OldLocker>(old(input)@, input@, got));
            match got {
                Ok(o) => self.lock_range(ctx, head, Locker::Old(o)),
                Err(e) => Err(e),
            }
        }
    }

    /// Locks a range. While the lock is looked at, the period in which clients take back what they
    /// had neither starts nor ends.
    pub fn op_lock(&mut self, input: &mut Reader<'_>, ctx: &CompoundContext) -> (r: Nfs4Result<
        Vec<u8>,
    >)
        requires
            old(self).wf(),
            old(self).can_lock(),
        ensures
            final(self).wf(),
            final(self).has_run_lock(old(self), *ctx, old(input)@, final(input)@, r),
    {
        let head = read_args::<LockHead>(input)?;
        let want = head.reclaim != 0;
        let ghost g = self.grace;
        let ghost s = old(input)@;
        assert(head.decodes_to(s));
        if head.locker_type == 1 || want {
            match self.grace.acquire_grace_status(want) {
                Err(st) => failure(st),
                Ok(guard) => {
                    let r = self.read_locker_and_lock(input, ctx, head);
                    guard.release(&mut self.grace);
                    assert(self.grace == g);
                    r
                },
            }
        } else {
            self.read_locker_and_lock(input, ctx, head)
        }
    }

    /// Whether anything stands in the way of a lock, and what a client is told of it.
    pub open spec fn has_tested(
        &self,
        ctx: CompoundContext,
        args: LocktArgs,
        r: Nfs4Result<Vec<u8>>,
    ) -> bool {
        let kind = LockType4::of_code(args.locktype);
        let owner = LockOwner4 { clientid: args.clientid, owner: args.owner };
        match self.target(ctx) {
            Err(st) => fails_with(r, st),
            Ok(fileid) => if bad_range(args.offset, args.length) {
                fails_with(r, Nfs4Status::Inval)
            } else if !self.locks.blocked(fileid, kind, args.offset, args.length, owner) {
                gives(r, Seq::empty())
            } else {
                exists|k: u128, i: int|
                    {
                        let s = self.locks.lock_states@[k];
                        &&& self.locks.in_the_way(
                            k,
                            fileid,
                            kind,
                            args.offset,
                            args.length,
                            owner,
                        )
                        &&& #[trigger] first_met(
                            self.locks.lock_states@[k],
                            fileid,
                            args.offset,
                            args.length,
                            i,
                        )
                        &&& if s.owner.encodable() {
                            is_denied(r, denied_bytes(s, i))
                        } else {
                            fails_with(r, Nfs4Status::Io)
                        }
                    }
            },
        }
    }

    fn first_met_index(s: &LockState, fileid: Fileid4, offset: u64, length: u64) -> (r: usize)
        requires
            exists|i: int|
                0 <= i < s.lock_entries@.len() && (#[trigger] s.lock_entries@[i]).fileid == fileid
                    && s.lock_entries@[i].meets(offset, length),
        ensures
            first_met(*s, fileid, offset, length, r as int),
    {
        let mut i: usize = 0;
        while !(s.lock_entries[i].fileid == fileid && s.lock_entries[i].overlaps(offset, length))
            invariant
                i < s.lock_entries.len(),
                exists|j: int|
                    i <= j < s.lock_entries@.len() && (#[trigger] s.lock_entries@[j]).fileid
                        == fileid && s.lock_entries@[j].meets(offset, length),
                forall|j: int|
                    0 <= j < i ==> !((#[trigger] s.lock_entries@[j]).fileid == fileid
                        && s.lock_entries@[j].meets(offset, length)),
            decreases s.lock_entries@.len() - i,
        {
            i += 1;
        }
        i
    }

    /// Looks whether anything stands in the way of a lock.
    pub fn op_lockt(&self, ctx: &CompoundContext, args: LocktArgs) -> (r: Nfs4Result<Vec<u8>>)
        ensures
            self.has_tested(*ctx, args, r),
    {
        let fileid = self.current_file(ctx)?;
        let kind = LockType4::from(args.locktype);
        if is_bad_range(args.offset, args.length) {
            return failure(Nfs4Status::Inval);
        }
        let owner = LockOwner4 { clientid: args.clientid, owner: args.owner };
        match self.locks.test_lock(fileid, kind, args.offset, args.length, &owner) {
            None => Ok(Vec::new()),
            Some(s) => {
                let i = Self::first_met_index(s, fileid, args.offset, args.length);
                proof {
                    let k = choose|k: u128| #[trigger]
                        self.locks.lock_states@.contains_key(k) && self.locks.lock_states@[k] == *s;
                    assert(self.locks.in_the_way(
                        k,
                        fileid,
                        kind,
                        args.offset,
                        args.length,
                        owner,
                    ));
                    assert(first_met(
                        self.locks.lock_states@[k],
                        fileid,
                        args.offset,
                        args.length,
                        i as int,
                    ));
                }
                let e = &s.lock_entries[i];
                let mut out: Vec<u8> = Vec::new();
                put_u64(&mut out, e.get_offset());
                put_u64(&mut out, e.get_length());
                put_u32(
                    &mut out,
                    if e.lock_type.is_write() {
                        2
                    } else {
                        1
                    },
                );
                if s.owner.serialize(&mut out).is_err() {
                    return failure(Nfs4Status::Io);
                }
                assert(out@ =~= denied_bytes(*s, i as int));
                Err(Nfs4Error::with_data(Nfs4Status::Denied, out))
            },
        }
    }

    /// What giving a range back comes to.
    pub open spec fn has_given_back(
        &self,
        before: &CompoundHandler,
        ctx: CompoundContext,
        args: LockuArgs,
        r: Nfs4Result<Vec<u8>>,
    ) -> bool {
        let k = key12(args.stateid.other@);
        match before.target(ctx) {
            Err(st) => fails_with(r, st) && *self == *before,
            Ok(fileid) => if bad_range(args.offset, args.length) {
                fails_with(r, Nfs4Status::Inval) && *self == *before
            } else if !before.locks.lock_states@.contains_key(k)
                || !before.locks.lock_states@[k].has_file(fileid) {
                fails_with(r, Nfs4Status::BadStateid) && *self == *before
            } else {
                &&& self.same_but_locks(before)
                &&& exists|now: Duration, got: Nfs4Result<Stateid4>|
                    {
                        &&& #[trigger] self.locks.has_unlocked(
                            &before.locks,
                            now,
                            args.stateid,
                            args.offset,
                            args.length,
                            got,
                        )
                        &&& gives(r, got->Ok_0.encoding())
                    }
            },
        }
    }

    /// Gives a range back.
    pub fn op_locku(&mut self, ctx: &CompoundContext, args: LockuArgs) -> (r: Nfs4Result<Vec<u8>>)
        requires
            old(self).wf(),
        ensures
            final(self).wf(),
            final(self).has_given_back(old(self), *ctx, args, r),
    {
        let ghost before = *self;
        let fileid = self.current_file(ctx)?;
        if is_bad_range(args.offset, args.length) {
            return failure(Nfs4Status::Inval);
        }
        match self.locks.get_lock_state(&args.stateid) {
            None => {
                return failure(Nfs4Status::BadStateid);
            },
            Some(s) => {
                if !s.in_file(fileid) {
                    return failure(Nfs4Status::BadStateid);
                }
            },
        }
        let got = self.locks.unlock(&args.stateid, args.offset, args.length);
        proof {
            let now = choose|now: Duration| #[trigger]
                self.locks.has_unlocked(
                    &before.locks,
                    now,
                    args.stateid,
                    args.offset,
                    args.length,
                    got,
                );
            assert(self.locks.has_unlocked(
                &before.locks,
                now,
                args.stateid,
                args.offset,
                args.length,
                got,
            ));
        }
        let sid = got?;
        stateid_reply(&sid)
    }

    /// What giving back all of an owner comes to.
    pub open spec fn has_released_owner(
        &self,
        before: &CompoundHandler,
        args: ReleaseLockownerArgs,
        r: Nfs4Result<Vec<u8>>,
    ) -> bool {
        if before.clients.clients@.contains_key(args.clientid) {
            &&& gives(r, Seq::empty())
            &&& self.same_but_locks(before)
            &&& self.locks.has_released_owner(
                &before.locks,
                LockOwner4 { clientid: args.clientid, owner: args.owner },
            )
        } else {
            fails_with(r, Nfs4Status::StaleClientid) && *self == *before
        }
    }

    /// Gives back all of an owner.
    pub fn op_release_lockowner(&mut self, args: ReleaseLockownerArgs) -> (r: Nfs4Result<Vec<u8>>)
        requires
            old(self).wf(),
        ensures
            final(self).wf(),
            final(self).has_released_owner(old(self), args, r),
    {
        if self.clients.get_client(args.clientid).is_none() {
            return failure(Nfs4Status::StaleClientid);
        }
        let owner = LockOwner4 { clientid: args.clientid, owner: args.owner };
        self.locks.release_all_for_owner(&owner);
        Ok(Vec::new())
    }
}

} // verus!
