//! Delegations: a client may keep a file's data to itself until it is asked for it back.

use crate::backchannel::{BackchannelManager, CallbackOp, Outbound};
use crate::bytes::{
    be32, be64, be_bool, key12, key_of12, le32, opaque, put_bool, put_opaque, put_u32, put_u64,
    put_le32, put_zeros, to_array, zeros,
};
use crate::error::{fails_with, failure, Nfs4Error, Nfs4Result, Nfs4Status};
use crate::lease::passed;
use crate::table::{keys64, push_one_more, take_one_more};
use crate::time::{boot_time, Clock, Duration};
use crate::types::{Clientid4, Fileid4, Nfs4FileHandle, Stateid4};
use crate::xdr::XDR;
use std::collections::HashMap;
use vstd::prelude::*;

verus! {

broadcast use vstd::std_specs::hash::group_hash_axioms;

/// The client wants some delegation.
pub const WANT_DELEG_ANY: u32 = 0x0100;

/// The client wants to keep what it reads.
pub const WANT_READ_DELEG: u32 = 0x0200;

/// The client wants to keep what it reads and writes.
pub const WANT_WRITE_DELEG: u32 = 0x0400;

/// The client wants no delegation.
pub const WANT_NO_DELEG: u32 = 0x0800;

/// The bits that say what delegation is wanted.
pub const WANT_DELEG_MASK: u32 = 0x0F00;

/// How delegations are handed out.
#[derive(Clone, Copy, Debug)]
pub struct DelegationConfig {
    /// Whether they are handed out at all.
    pub enabled: bool,
    /// How long a client may take to give one back.
    pub recall_timeout_secs: u64,
    /// How many there may be at a time.
    pub max_delegations: usize,
    /// How often to look for those that were not given back in time.
    pub reaper_check_interval_ms: u64,
}

impl Default for DelegationConfig {
    /// Delegations are not handed out.
    fn default() -> (r: Self)
        ensures
            !r.enabled,
            r.recall_timeout_secs == 30,
            r.max_delegations == 1000,
            r.reaper_check_interval_ms == 5000,
    {
        DelegationConfig {
            enabled: false,
            recall_timeout_secs: 30,
            max_delegations: 1000,
            reaper_check_interval_ms: 5000,
        }
    }
}

/// What a client may keep to itself.
#[derive(Clone, Copy, Debug, PartialEq, Eq, Structural)]
pub enum DelegationType {
    /// Nothing.
    NoDelegation,
    /// What it reads.
    Read,
    /// What it reads and writes.
    Write,
}

impl DelegationType {
    /// The kind that a number stands for.
    pub open spec fn of_code(v: u32) -> Self {
        if v == 1 {
            DelegationType::Read
        } else if v == 2 {
            DelegationType::Write
        } else {
            DelegationType::NoDelegation
        }
    }
}

impl vstd::std_specs::convert::FromSpecImpl<u32> for DelegationType {
    open spec fn obeys_from_spec() -> bool {
        true
    }

    open spec fn from_spec(v: u32) -> Self {
        DelegationType::of_code(v)
    }
}

impl From<u32> for DelegationType {
    fn from(v: u32) -> (r: Self) {
        match v {
            1 => DelegationType::Read,
            2 => DelegationType::Write,
            _ => DelegationType::NoDelegation,
        }
    }
}

/// A delegation.
#[derive(Clone, Copy, Debug)]
pub struct Delegation {
    pub stateid: Stateid4,
    pub clientid: Clientid4,
    pub fileid: Fileid4,
    pub deleg_type: DelegationType,
    /// When it was handed out.
    pub granted_at: Duration,
    /// Whether the client was asked for it back.
    pub recall_initiated: bool,
    /// When the client was asked for it back.
    pub recall_time: Option<Duration>,
}

impl Delegation {
    /// A delegation that was just handed out.
    pub fn new(
        stateid: Stateid4,
        clientid: Clientid4,
        fileid: Fileid4,
        deleg_type: DelegationType,
        now: Duration,
    ) -> (r: Self)
        ensures
            r == (Delegation {
                stateid,
                clientid,
                fileid,
                deleg_type,
                granted_at: now,
                recall_initiated: false,
                recall_time: None,
            }),
    {
        Delegation {
            stateid,
            clientid,
            fileid,
            deleg_type,
            granted_at: now,
            recall_initiated: false,
            recall_time: None,
        }
    }

    /// Whether the client has had longer than `timeout` to give it back.
    pub open spec fn overdue(&self, now: Duration, timeout: Duration) -> bool {
        self.recall_time matches Some(t) && passed(t, now) > timeout.nanos
    }

    /// Whether the client has had longer than `timeout` to give it back.
    pub fn recall_timed_out(&self, now: Duration, timeout: Duration) -> (r: bool)
        ensures
            r == self.overdue(now, timeout),
    {
        match self.recall_time {
            Some(t) => now.saturating_sub(t).nanos > timeout.nanos,
            None => false,
        }
    }
}

/// The id of the `n`-th delegation.
pub open spec fn delegation_other(n: u32) -> Seq<u8> {
    le32(0xDE1E0000) + le32(n) + zeros(4)
}

/// Delegations with different numbers have different ids.
pub proof fn law_delegation_ids_differ(m: u32, n: u32)
    requires
        m != n,
    ensures
        delegation_other(m) != delegation_other(n),
        key12(delegation_other(m)) != key12(delegation_other(n)),
{
    let a = delegation_other(m);
    let b = delegation_other(n);
    if a == b {
        assert(a.subrange(4, 8) =~= le32(m));
        assert(b.subrange(4, 8) =~= le32(n));
        crate::bytes::le32_round_trip(m, le32(m), Seq::empty());
        crate::bytes::le32_round_trip(n, le32(n), Seq::empty());
    }
    assert(a.len() == 12 && b.len() == 12);
    if key12(a) == key12(b) {
        crate::bytes::key12_injective(a, b);
    }
}

/// Which delegation is asked for, if any.
pub open spec fn wanted(want_flags: u32) -> Option<DelegationType> {
    if want_flags & WANT_NO_DELEG != 0 {
        None
    } else if want_flags & WANT_WRITE_DELEG != 0 {
        Some(DelegationType::Write)
    } else if want_flags & WANT_READ_DELEG != 0 || want_flags & WANT_DELEG_ANY != 0 {
        Some(DelegationType::Read)
    } else {
        None
    }
}

/// All delegations.
pub struct DelegationManager {
    pub delegations: HashMap<u64, Delegation>,
    /// The file of each delegation, by the number of the delegation's id.
    pub stateid_to_file: HashMap<u128, u64>,
    pub next_stateid: u32,
    pub boot_time: u64,
    pub recall_timeout: Duration,
    pub enabled: bool,
    pub max_delegations: usize,
    pub clock: Clock,
}

/// What goes out to one whose delegation is in the way.
pub open spec fn recalled(r: Nfs4Result<(bool, Option<Outbound>)>) -> Nfs4Result<Option<Outbound>> {
    match r {
        Ok((_, out)) => Ok(out),
        Err(e) => Err(e),
    }
}

impl DelegationManager {
    /// Delegations stand under their files.
    pub open spec fn wf(&self) -> bool {
        forall|f: u64| #[trigger]
            self.delegations@.contains_key(f) ==> self.delegations@[f].fileid == f
    }

    /// Each delegation is found by its id, and nothing else is found by an id.
    pub open spec fn paired(&self) -> bool {
        &&& forall|f: u64| #[trigger]
            self.delegations@.contains_key(f) ==> {
                let k = key12(self.delegations@[f].stateid.other@);
                self.stateid_to_file@.contains_key(k) && self.stateid_to_file@[k] == f
            }
        &&& forall|k: u128| #[trigger]
            self.stateid_to_file@.contains_key(k) ==> {
                let f = self.stateid_to_file@[k];
                self.delegations@.contains_key(f) && key12(self.delegations@[f].stateid.other@) == k
            }
    }

    /// No delegation has the id that is handed out next.
    pub open spec fn next_is_free(&self) -> bool {
        !self.stateid_to_file@.contains_key(key12(delegation_other(self.next_stateid)))
    }

    /// The same but for the delegations.
    pub open spec fn same_rest(&self, before: &DelegationManager) -> bool {
        &&& self.boot_time == before.boot_time
        &&& self.recall_timeout == before.recall_timeout
        &&& self.enabled == before.enabled
        &&& self.max_delegations == before.max_delegations
        &&& self.clock == before.clock
    }

    /// No delegations, and none are handed out.
    pub fn new() -> (r: Self)
        ensures
            r.wf(),
            r.paired(),
            r.delegations@ == Map::<u64, Delegation>::empty(),
            r.stateid_to_file@ == Map::<u128, u64>::empty(),
            r.next_stateid == 1,
            !r.enabled,
            r.max_delegations == 1000,
            r.recall_timeout.nanos == 30 * 1_000_000_000,
    {
        Self::with_config(DelegationConfig::default())
    }

    /// No delegations.
    pub fn with_config(config: DelegationConfig) -> (r: Self)
        ensures
            r.wf(),
            r.paired(),
            r.delegations@ == Map::<u64, Delegation>::empty(),
            r.stateid_to_file@ == Map::<u128, u64>::empty(),
            r.next_stateid == 1,
            r.enabled == config.enabled,
            r.max_delegations == config.max_delegations,
            r.recall_timeout.nanos == config.recall_timeout_secs * 1_000_000_000,
    {
        DelegationManager {
            delegations: HashMap::new(),
            stateid_to_file: HashMap::new(),
            next_stateid: 1,
            boot_time: boot_time(),
            recall_timeout: Duration::from_secs(config.recall_timeout_secs),
            enabled: config.enabled,
            max_delegations: config.max_delegations,
            clock: Clock::start(),
        }
    }

    /// The id of a new delegation.
    fn generate_stateid(&mut self) -> (r: Stateid4)
        ensures
            r.seqid == 1,
            r.other@ == delegation_other(old(self).next_stateid),
            *final(self) == (DelegationManager {
                next_stateid: old(self).next_stateid.wrapping_add(1),
                ..*old(self)
            }),
    {
        let seq: u32 = self.next_stateid;
        self.next_stateid = seq.wrapping_add(1);
        let mut other: Vec<u8> = Vec::new();
        put_le32(&mut other, 0xDE1E0000);
        put_le32(&mut other, seq);
        put_zeros(&mut other, 4);
        assert(other@ =~= delegation_other(seq));
        Stateid4::new(1, to_array(other.as_slice()))
    }

    /// Whether delegations are handed out.
    pub fn is_enabled(&self) -> (r: bool)
        ensures
            r == self.enabled,
    {
        self.enabled
    }

    /// Sets whether delegations are handed out.
    pub fn set_enabled(&mut self, enabled: bool)
        ensures
            *final(self) == (DelegationManager { enabled, ..*old(self) }),
    {
        self.enabled = enabled;
    }

    /// The delegation of a file, if there is one.
    pub open spec fn of(&self, fileid: Fileid4) -> Option<Delegation> {
        if self.delegations@.contains_key(fileid) {
            Some(self.delegations@[fileid])
        } else {
            None
        }
    }

    /// The delegation of a file, if there is one.
    pub fn get_delegation(&self, fileid: Fileid4) -> (r: Option<Delegation>)
        ensures
            r == self.of(fileid),
    {
        match self.delegations.get(&fileid) {
            Some(d) => Some(*d),
            None => None,
        }
    }

    /// Whether a file has a delegation.
    pub fn has_delegation(&self, fileid: Fileid4) -> (r: bool)
        ensures
            r == self.delegations@.contains_key(fileid),
    {
        self.delegations.contains_key(&fileid)
    }

    /// Whether nothing stands in the way of a delegation of the file.
    pub fn can_grant(&self, fileid: Fileid4) -> (r: bool)
        ensures
            r == !self.delegations@.contains_key(fileid),
    {
        !self.has_delegation(fileid)
    }

    /// Whether there may be another delegation.
    pub fn should_grant(&self) -> (r: bool)
        ensures
            r == (self.delegations@.dom().len() < self.max_delegations),
    {
        self.delegations.len() < self.max_delegations
    }

    /// Which delegation of a file is handed out, if any: what was asked for, if delegations are
    /// handed out, the file has none yet, and there may be another one.
    pub open spec fn due(&self, fileid: Fileid4, want_flags: u32) -> Option<DelegationType> {
        if self.enabled && !self.delegations@.contains_key(fileid) && self.delegations@.dom().len()
            < self.max_delegations {
            wanted(want_flags)
        } else {
            None
        }
    }

    /// What handing a delegation out at `now` comes to.
    pub open spec fn has_granted(
        &self,
        before: &DelegationManager,
        now: Duration,
        clientid: Clientid4,
        fileid: Fileid4,
        want_flags: u32,
        r: Option<Delegation>,
    ) -> bool {
        match before.due(fileid, want_flags) {
            None => r is None && *self == *before,
            Some(kind) => {
                &&& r is Some
                &&& r->Some_0.stateid.seqid == 1
                &&& r->Some_0.stateid.other@ == delegation_other(before.next_stateid)
                &&& r->Some_0 == Delegation {
                    stateid: r->Some_0.stateid,
                    clientid,
                    fileid,
                    deleg_type: kind,
                    granted_at: now,
                    recall_initiated: false,
                    recall_time: None,
                }
                &&& self.delegations@ == before.delegations@.insert(fileid, r->Some_0)
                &&& self.stateid_to_file@ == before.stateid_to_file@.insert(
                    key12(delegation_other(before.next_stateid)),
                    fileid,
                )
                &&& self.next_stateid == before.next_stateid.wrapping_add(1)
                &&& self.same_rest(before)
            },
        }
    }

    /// Hands a delegation out at `now`, if one is due.
    pub fn try_grant_at(
        &mut self,
        now: Duration,
        clientid: Clientid4,
        fileid: Fileid4,
        want_flags: u32,
    ) -> (r: Option<Delegation>)
        requires
            old(self).wf(),
        ensures
            final(self).wf(),
            final(self).has_granted(old(self), now, clientid, fileid, want_flags, r),
            old(self).paired() && old(self).next_is_free() ==> final(self).paired(),
    {
        if !self.enabled {
            return None;
        }
        if want_flags & WANT_NO_DELEG != 0 {
            return None;
        }
        if !self.can_grant(fileid) {
            return None;
        }
        if !self.should_grant() {
            return None;
        }
        let deleg_type = if want_flags & WANT_WRITE_DELEG != 0 {
            DelegationType::Write
        } else if want_flags & WANT_READ_DELEG != 0 {
            DelegationType::Read
        } else if want_flags & WANT_DELEG_ANY != 0 {
            DelegationType::Read
        } else {
            return None;
        };
        let stateid = self.generate_stateid();
        let delegation = Delegation::new(stateid, clientid, fileid, deleg_type, now);
        self.delegations.insert(fileid, delegation);
        self.stateid_to_file.insert(key_of12(&stateid.other), fileid);
        Some(delegation)
    }

    /// Hands a delegation out, if one is due.
    pub fn try_grant(
        &mut self,
        clientid: Clientid4,
        fileid: Fileid4,
        want_flags: u32,
    ) -> (r: Option<Delegation>)
        requires
            old(self).wf(),
        ensures
            final(self).wf(),
            exists|now: Duration| #[trigger]
                final(self).has_granted(old(self), now, clientid, fileid, want_flags, r),
            old(self).paired() && old(self).next_is_free() ==> final(self).paired(),
    {
        let now = self.clock.now();
        self.try_grant_at(now, clientid, fileid, want_flags)
    }

    /// What asking for a file's delegation back at `now` comes to: `chan` was what clients are
    /// called back over, and has become `chan2`.
    pub open spec fn has_recalled(
        &self,
        before: &DelegationManager,
        now: Duration,
        fileid: Fileid4,
        fh: Nfs4FileHandle,
        truncate: bool,
        chan: &BackchannelManager,
        chan2: &BackchannelManager,
        r: Nfs4Result<Option<Outbound>>,
    ) -> bool {
        &&& self.stateid_to_file == before.stateid_to_file
        &&& self.next_stateid == before.next_stateid
        &&& self.same_rest(before)
        &&& match before.of(fileid) {
            None => {
                &&& fails_with(r, Nfs4Status::BadStateid)
                &&& self.delegations@ == before.delegations@
                &&& *chan2 == *chan
            },
            Some(d) => if d.recall_initiated {
                &&& r == Ok::<Option<Outbound>, Nfs4Error>(None)
                &&& self.delegations@ == before.delegations@
                &&& *chan2 == *chan
            } else {
                match chan.obstacle(d.clientid) {
                    Some(st) => {
                        &&& fails_with(r, st)
                        &&& self.delegations@ == before.delegations@.insert(
                            fileid,
                            Delegation { recall_time: None, ..d },
                        )
                        &&& match st {
                            Nfs4Status::Io => chan2.has_dropped(chan, d.clientid),
                            _ => *chan2 == *chan,
                        }
                    },
                    None => {
                        &&& r is Ok
                        &&& self.delegations@ == before.delegations@.insert(
                            fileid,
                            Delegation {
                                recall_initiated: true,
                                recall_time: Some(now),
                                ..d
                            },
                        )
                        &&& chan2.has_sent(
                            chan,
                            d.clientid,
                            CallbackOp::Recall { stateid: d.stateid, truncate },
                            fh,
                            r->Ok_0,
                        )
                    },
                }
            },
        }
    }

    /// Asks at `now` for the delegation of a file back. What is to be sent is handed out. Nothing
    /// is asked twice; where the client cannot be asked, it can be tried again.
    pub fn recall_at(
        &mut self,
        now: Duration,
        backchannel: &mut BackchannelManager,
        fileid: Fileid4,
        file_handle: Nfs4FileHandle,
        truncate: bool,
    ) -> (r: Nfs4Result<Option<Outbound>>)
        requires
            old(self).wf(),
            old(backchannel).wf(),
        ensures
            final(self).wf(),
            final(backchannel).wf(),
            final(self).has_recalled(
                old(self),
                now,
                fileid,
                file_handle,
                truncate,
                old(backchannel),
                final(backchannel),
                r,
            ),
            old(self).paired() ==> final(self).paired(),
    {
        let d = match self.get_delegation(fileid) {
            Some(d) => d,
            None => {
                return failure(Nfs4Status::BadStateid);
            },
        };
        if d.recall_initiated {
            return Ok(None);
        }
        match backchannel.recall_delegation(d.clientid, d.stateid, file_handle, truncate) {
            Ok(out) => {
                let mut d = d;
                d.recall_initiated = true;
                d.recall_time = Some(now);
                self.delegations.insert(fileid, d);
                Ok(out)
            },
            Err(e) => {
                let mut d = d;
                d.recall_time = None;
                self.delegations.insert(fileid, d);
                Err(e)
            },
        }
    }

    /// Asks for the delegation of a file back.
    pub fn recall(
        &mut self,
        backchannel: &mut BackchannelManager,
        fileid: Fileid4,
        file_handle: Nfs4FileHandle,
        truncate: bool,
    ) -> (r: Nfs4Result<Option<Outbound>>)
        requires
            old(self).wf(),
            old(backchannel).wf(),
        ensures
            final(self).wf(),
            final(backchannel).wf(),
            exists|now: Duration| #[trigger]
                final(self).has_recalled(
                    old(self),
                    now,
                    fileid,
                    file_handle,
                    truncate,
                    old(backchannel),
                    final(backchannel),
                    r,
                ),
            old(self).paired() ==> final(self).paired(),
    {
        let now = self.clock.now();
        self.recall_at(now, backchannel, fileid, file_handle, truncate)
    }

    /// `self` is `before` without the delegation of a file.
    pub open spec fn has_lost(&self, before: &DelegationManager, fileid: Fileid4) -> bool {
        &&& self.delegations@ == before.delegations@.remove(fileid)
        &&& self.stateid_to_file@ == if before.delegations@.contains_key(fileid) {
            before.stateid_to_file@.remove(key12(before.delegations@[fileid].stateid.other@))
        } else {
            before.stateid_to_file@
        }
        &&& self.next_stateid == before.next_stateid
        &&& self.same_rest(before)
    }

    /// A client gives a delegation back.
    pub fn return_delegation(&mut self, stateid: &Stateid4) -> (r: Nfs4Result<()>)
        requires
            old(self).wf(),
        ensures
            final(self).wf(),
            final(self).next_stateid == old(self).next_stateid,
            final(self).same_rest(old(self)),
            final(self).stateid_to_file@ == old(self).stateid_to_file@.remove(
                key12(stateid.other@),
            ),
            ({
                let k = key12(stateid.other@);
                if old(self).stateid_to_file@.contains_key(k) && old(
                    self,
                ).delegations@.contains_key(old(self).stateid_to_file@[k]) {
                    r is Ok && final(self).delegations@ == old(self).delegations@.remove(
                        old(self).stateid_to_file@[k],
                    )
                } else {
                    fails_with(r, Nfs4Status::BadStateid) && final(self).delegations@ == old(
                        self,
                    ).delegations@
                }
            }),
            old(self).paired() ==> final(self).paired() && (r is Ok <==> old(
                self,
            ).stateid_to_file@.contains_key(key12(stateid.other@))),
    {
        let key: u128 = key_of12(&stateid.other);
        match self.stateid_to_file.remove(&key) {
            None => {
                assert(self.stateid_to_file@ =~= old(self).stateid_to_file@);
                assert(self.stateid_to_file@ =~= old(self).stateid_to_file@.remove(key));
                failure(Nfs4Status::BadStateid)
            },
            Some(fileid) => match self.delegations.remove(&fileid) {
                None => {
                    assert(self.delegations@ =~= old(self).delegations@);
                    failure(Nfs4Status::BadStateid)
                },
                Some(_) => Ok(()),
            },
        }
    }

    /// The delegation with the given id, if there is one.
    pub open spec fn named(&self, stateid: Stateid4) -> Option<Delegation> {
        let k = key12(stateid.other@);
        if self.stateid_to_file@.contains_key(k) {
            self.of(self.stateid_to_file@[k])
        } else {
            None
        }
    }

    /// The delegation with the given id.
    pub fn verify_stateid(&self, stateid: &Stateid4) -> (r: Nfs4Result<Delegation>)
        ensures
            match self.named(*stateid) {
                Some(d) => r == Ok::<Delegation, Nfs4Error>(d),
                None => fails_with(r, Nfs4Status::BadStateid),
            },
    {
        let key: u128 = key_of12(&stateid.other);
        match self.stateid_to_file.get(&key) {
            Some(fileid) => match self.get_delegation(*fileid) {
                Some(d) => Ok(d),
                None => failure(Nfs4Status::BadStateid),
            },
            None => failure(Nfs4Status::BadStateid),
        }
    }

    /// Takes a file's delegation away, if it has one.
    fn lose(&mut self, fileid: Fileid4)
        requires
            old(self).wf(),
        ensures
            final(self).wf(),
            final(self).has_lost(old(self), fileid),
            old(self).paired() ==> final(self).paired(),
    {
        match self.delegations.remove(&fileid) {
            Some(d) => {
                self.stateid_to_file.remove(&key_of12(&d.stateid.other));
            },
            None => {
                assert(self.delegations@ =~= old(self).delegations@);
                assert(self.delegations@ =~= old(self).delegations@.remove(fileid));
            },
        }
    }

    /// `self` is `before` without the delegations of the given files.
    pub open spec fn has_lost_all(&self, before: &DelegationManager, files: Seq<u64>) -> bool {
        &&& forall|f: u64| #[trigger]
            self.delegations@.contains_key(f) <==> before.delegations@.contains_key(f)
                && !files.contains(f)
        &&& forall|f: u64| #[trigger]
            self.delegations@.contains_key(f) ==> self.delegations@[f] == before.delegations@[f]
        &&& forall|k: u128| #[trigger]
            self.stateid_to_file@.contains_key(k) ==> before.stateid_to_file@.contains_key(k)
                && self.stateid_to_file@[k] == before.stateid_to_file@[k]
        &&& self.next_stateid == before.next_stateid
        &&& self.same_rest(before)
    }

    /// Takes the delegations of the given files away.
    fn lose_all(&mut self, files: &Vec<u64>)
        requires
            old(self).wf(),
        ensures
            final(self).wf(),
            final(self).has_lost_all(old(self), files@),
            old(self).paired() ==> final(self).paired(),
    {
        let mut i: usize = 0;
        assert(files@.take(0) =~= Seq::empty());
        while i < files.len()
            invariant
                i <= files.len(),
                self.wf(),
                self.has_lost_all(old(self), files@.take(i as int)),
                old(self).paired() ==> self.paired(),
            decreases files.len() - i,
        {
            proof {
                take_one_more(files@, i as int);
            }
            self.lose(files[i]);
            i = i + 1;
        }
        assert(files@.take(i as int) =~= files@);
    }

    /// Takes a client's delegations away.
    pub fn revoke_all_for_client(&mut self, clientid: Clientid4)
        requires
            old(self).wf(),
        ensures
            final(self).wf(),
            forall|f: u64| #[trigger]
                final(self).delegations@.contains_key(f) <==> old(
                    self,
                ).delegations@.contains_key(f) && old(self).delegations@[f].clientid != clientid,
            forall|f: u64| #[trigger]
                final(self).delegations@.contains_key(f) ==> final(self).delegations@[f] == old(
                    self,
                ).delegations@[f],
            final(self).next_stateid == old(self).next_stateid,
            final(self).same_rest(old(self)),
            old(self).paired() ==> final(self).paired(),
    {
        let keys = keys64(&self.delegations);
        let mut files: Vec<u64> = Vec::new();
        let mut i: usize = 0;
        while i < keys.len()
            invariant
                *self == *old(self),
                i <= keys.len(),
                forall|k: u64| #[trigger]
                    keys@.contains(k) <==> self.delegations@.contains_key(k),
                forall|f: u64| #[trigger]
                    files@.contains(f) <==> keys@.take(i as int).contains(f)
                        && self.delegations@[f].clientid == clientid,
            decreases keys.len() - i,
        {
            let k: u64 = keys[i];
            proof {
                take_one_more(keys@, i as int);
                push_one_more(files@, k);
                assert(keys@.contains(k));
            }
            if let Some(d) = self.delegations.get(&k) {
                if d.clientid == clientid {
                    files.push(k);
                }
            }
            i = i + 1;
        }
        assert(keys@.take(i as int) =~= keys@);
        self.lose_all(&files);
    }

    /// What taking away at `now` what was not given back in time comes to: `r` names the files and
    /// the clients that had them.
    pub open spec fn has_cleaned_up(
        &self,
        before: &DelegationManager,
        now: Duration,
        r: Seq<(u64, u64)>,
    ) -> bool {
        &&& forall|i: int|
            0 <= i < r.len() ==> {
                let f = (#[trigger] r[i]).0;
                &&& before.delegations@.contains_key(f)
                &&& before.delegations@[f].overdue(now, before.recall_timeout)
                &&& before.delegations@[f].clientid == r[i].1
            }
        &&& forall|i: int, j: int| 0 <= i < j < r.len() ==> (#[trigger] r[i]).0 != (#[trigger] r[j]).0
        &&& forall|f: u64| #[trigger]
            before.delegations@.contains_key(f) && before.delegations@[f].overdue(
                now,
                before.recall_timeout,
            ) ==> exists|i: int| 0 <= i < r.len() && (#[trigger] r[i]).0 == f
        &&& forall|f: u64| #[trigger]
            self.delegations@.contains_key(f) <==> before.delegations@.contains_key(f)
                && !before.delegations@[f].overdue(now, before.recall_timeout)
        &&& forall|f: u64| #[trigger]
            self.delegations@.contains_key(f) ==> self.delegations@[f] == before.delegations@[f]
        &&& self.next_stateid == before.next_stateid
        &&& self.same_rest(before)
    }

    /// Takes away at `now` the delegations that were asked for and not given back in time.
    pub fn cleanup_timed_out_recalls_at(&mut self, now: Duration) -> (r: Vec<(Fileid4, Clientid4)>)
        requires
            old(self).wf(),
        ensures
            final(self).wf(),
            final(self).has_cleaned_up(old(self), now, r@),
            old(self).paired() ==> final(self).paired(),
    {
        let keys = keys64(&self.delegations);
        let mut files: Vec<u64> = Vec::new();
        let mut out: Vec<(u64, u64)> = Vec::new();
        let ghost m = self.delegations@;
        let ghost limit = self.recall_timeout;
        let mut i: usize = 0;
        while i < keys.len()
            invariant
                *self == *old(self),
                m == self.delegations@,
                limit == self.recall_timeout,
                i <= keys.len(),
                keys@.no_duplicates(),
                forall|k: u64| #[trigger] keys@.contains(k) <==> m.contains_key(k),
                forall|f: u64| #[trigger]
                    files@.contains(f) <==> keys@.take(i as int).contains(f) && m[f].overdue(
                        now,
                        limit,
                    ),
                files@.no_duplicates(),
                out@.len() == files@.len(),
                forall|j: int|
                    0 <= j < files@.len() ==> (#[trigger] out@[j]).0 == files@[j] && out@[j].1
                        == m[files@[j]].clientid,
            decreases keys.len() - i,
        {
            let k: u64 = keys[i];
            proof {
                take_one_more(keys@, i as int);
                push_one_more(files@, k);
                assert(keys@.contains(k));
                assert(!keys@.take(i as int).contains(k)) by {
                    if keys@.take(i as int).contains(k) {
                        let n = choose|n: int|
                            0 <= n < i && #[trigger] keys@.take(i as int)[n] == k;
                        assert(keys@[n] == keys@[i as int]);
                    }
                }
            }
            let ghost before = files@;
            if let Some(d) = self.delegations.get(&k) {
                if d.recall_timed_out(now, self.recall_timeout) {
                    files.push(k);
                    out.push((k, d.clientid));
                    proof {
                        assert(files@.no_duplicates()) by {
                            assert forall|a: int, b: int|
                                0 <= a < files@.len() && 0 <= b < files@.len() && a
                                    != b implies files@[a] != files@[b] by {
                                if a < before.len() {
                                    assert(before.contains(before[a]));
                                }
                                if b < before.len() {
                                    assert(before.contains(before[b]));
                                }
                            }
                        }
                    }
                }
            }
            i = i + 1;
        }
        proof {
            assert(keys@.take(i as int) =~= keys@);
            assert forall|f: u64| #[trigger]
                m.contains_key(f) && m[f].overdue(now, limit) implies exists|j: int|
                0 <= j < out@.len() && (#[trigger] out@[j]).0 == f by {
                assert(keys@.contains(f));
                assert(files@.contains(f));
                let j = choose|j: int| 0 <= j < files@.len() && files@[j] == f;
                assert(out@[j].0 == f);
            }
            assert forall|j: int| 0 <= j < out@.len() implies m.contains_key(
                (#[trigger] out@[j]).0,
            ) && m[out@[j].0].overdue(now, limit) by {
                assert(files@.contains(files@[j]));
            }
        }
        self.lose_all(&files);
        proof {
            assert forall|f: u64| #[trigger]
                self.delegations@.contains_key(f) <==> m.contains_key(f) && !m[f].overdue(
                    now,
                    limit,
                ) by {
                if m.contains_key(f) {
                    assert(keys@.contains(f));
                }
            }
        }
        out
    }

    /// Takes away the delegations that were asked for and not given back in time.
    pub fn cleanup_timed_out_recalls(&mut self) -> (r: Vec<(Fileid4, Clientid4)>)
        requires
            old(self).wf(),
        ensures
            final(self).wf(),
            exists|now: Duration| #[trigger] final(self).has_cleaned_up(old(self), now, r@),
            old(self).paired() ==> final(self).paired(),
    {
        let now = self.clock.now();
        self.cleanup_timed_out_recalls_at(now)
    }

    /// Whether what a client wants with a file goes against the delegation of another client.
    pub open spec fn conflicts(
        &self,
        fileid: Fileid4,
        clientid: Clientid4,
        is_write: bool,
    ) -> bool {
        self.of(fileid) matches Some(d) && d.clientid != clientid && (d.deleg_type
            == DelegationType::Write || is_write && d.deleg_type == DelegationType::Read)
    }

    /// Whether what a client wants with a file goes against the delegation of another client.
    pub fn needs_recall(&self, fileid: Fileid4, clientid: Clientid4, is_write: bool) -> (r: bool)
        ensures
            r == self.conflicts(fileid, clientid, is_write),
    {
        if let Some(d) = self.delegations.get(&fileid) {
            if d.clientid != clientid {
                if d.deleg_type == DelegationType::Write {
                    return true;
                }
                if is_write && d.deleg_type == DelegationType::Read {
                    return true;
                }
            }
        }
        false
    }

    /// Whether a delegation has to be asked back before a client gets at a file.
    pub open spec fn in_the_way(
        &self,
        clientid: Clientid4,
        fileid: Fileid4,
        is_write: bool,
    ) -> bool {
        self.enabled && self.conflicts(fileid, clientid, is_write)
    }

    /// Asks at `now` for the delegation that stands in the way of a client, if there is one. Says
    /// whether there is, with what is to be sent.
    pub fn check_and_recall_if_needed_at(
        &mut self,
        now: Duration,
        backchannel: &mut BackchannelManager,
        clientid: Clientid4,
        fileid: Fileid4,
        is_write: bool,
        file_handle: Nfs4FileHandle,
    ) -> (r: Nfs4Result<(bool, Option<Outbound>)>)
        requires
            old(self).wf(),
            old(backchannel).wf(),
        ensures
            final(self).wf(),
            final(backchannel).wf(),
            if old(self).in_the_way(clientid, fileid, is_write) {
                &&& r matches Ok((b, _)) ==> b
                &&& final(self).has_recalled(
                    old(self),
                    now,
                    fileid,
                    file_handle,
                    false,
                    old(backchannel),
                    final(backchannel),
                    match r {
                        Ok((_, out)) => Ok(out),
                        Err(e) => Err(e),
                    },
                )
            } else {
                &&& r == Ok::<(bool, Option<Outbound>), Nfs4Error>((false, None))
                &&& *final(self) == *old(self)
                &&& *final(backchannel) == *old(backchannel)
            },
            old(self).paired() ==> final(self).paired(),
    {
        if !self.enabled {
            return Ok((false, None));
        }
        if self.needs_recall(fileid, clientid, is_write) {
            match self.recall_at(now, backchannel, fileid, file_handle, false) {
                Ok(out) => Ok((true, out)),
                Err(e) => Err(e),
            }
        } else {
            Ok((false, None))
        }
    }

    /// Sees to it that no delegation is in the way of a client: one that is gets recalled.
    pub fn check_and_recall_if_needed(
        &mut self,
        backchannel: &mut BackchannelManager,
        clientid: Clientid4,
        fileid: Fileid4,
        is_write: bool,
        file_handle: Nfs4FileHandle,
    ) -> (r: Nfs4Result<(bool, Option<Outbound>)>)
        requires
            old(self).wf(),
            old(backchannel).wf(),
        ensures
            final(self).wf(),
            final(backchannel).wf(),
            if old(self).in_the_way(clientid, fileid, is_write) {
                &&& r matches Ok((b, _)) ==> b
                &&& exists|now: Duration| #[trigger]
                    final(self).has_recalled(
                        old(self),
                        now,
                        fileid,
                        file_handle,
                        false,
                        old(backchannel),
                        final(backchannel),
                        recalled(r),
                    )
            } else {
                &&& r == Ok::<(bool, Option<Outbound>), Nfs4Error>((false, None))
                &&& *final(self) == *old(self)
                &&& *final(backchannel) == *old(backchannel)
            },
            old(self).paired() ==> final(self).paired(),
    {
        let now = self.clock.now();
        let r = self.check_and_recall_if_needed_at(
            now,
            backchannel,
            clientid,
            fileid,
            is_write,
            file_handle,
        );
        assert(old(self).in_the_way(clientid, fileid, is_write) ==> self.has_recalled(
            old(self),
            now,
            fileid,
            file_handle,
            false,
            old(backchannel),
            backchannel,
            recalled(r),
        ));
        r
    }

    /// What a failed recall comes to: it counts as not made.
    pub open spec fn has_dropped_recall(
        &self,
        before: &DelegationManager,
        stateid: Stateid4,
    ) -> bool {
        &&& self.stateid_to_file == before.stateid_to_file
        &&& self.next_stateid == before.next_stateid
        &&& self.same_rest(before)
        &&& match before.named(stateid) {
            None => self.delegations@ == before.delegations@,
            Some(d) => self.delegations@ == before.delegations@.insert(
                d.fileid,
                Delegation { recall_initiated: false, recall_time: None, ..d },
            ),
        }
    }

    /// A recall was answered. One that has failed can be made again.
    pub fn handle_recall_result(&mut self, stateid: &Stateid4, success: bool)
        requires
            old(self).wf(),
        ensures
            final(self).wf(),
            success ==> *final(self) == *old(self),
            !success ==> final(self).has_dropped_recall(old(self), *stateid),
            old(self).paired() ==> final(self).paired(),
    {
        if success {
            return ;
        }
        if let Ok(d) = self.verify_stateid(stateid) {
            self.delegations.insert(
                d.fileid,
                Delegation { recall_initiated: false, recall_time: None, ..d },
            );
        }
    }

    /// What the client of an open is told of the file's delegation.
    pub fn get_delegation_info(&self, fileid: Fileid4) -> (r: Option<(DelegationType, Stateid4)>)
        ensures
            r == match self.of(fileid) {
                Some(d) => Some((d.deleg_type, d.stateid)),
                None => None,
            },
    {
        match self.delegations.get(&fileid) {
            Some(d) => Some((d.deleg_type, d.stateid)),
            None => None,
        }
    }
}

/// A client that holds a delegation is never in its own way, and two clients that only read are
/// not in each other's way.
pub proof fn law_delegations_only_bar_others(
    m: DelegationManager,
    fileid: u64,
    clientid: u64,
    w: bool,
)
    ensures
        m.of(fileid) matches Some(d) && d.clientid == clientid ==> !m.conflicts(
            fileid,
            clientid,
            w,
        ),
        m.of(fileid) matches Some(d) && d.deleg_type == DelegationType::Read ==> !m.conflicts(
            fileid,
            clientid,
            false,
        ),
        !m.enabled ==> !m.in_the_way(clientid, fileid, w),
{
}

/// A delegation for reading has to be given back before another client writes, and one for writing
/// before another client does anything.
pub proof fn law_delegations_bar_others(
    m: DelegationManager,
    fileid: u64,
    clientid: u64,
    d: Delegation,
)
    requires
        m.of(fileid) == Some(d),
        d.clientid != clientid,
    ensures
        d.deleg_type == DelegationType::Read ==> m.conflicts(fileid, clientid, true),
        d.deleg_type == DelegationType::Write ==> m.conflicts(fileid, clientid, true)
            && m.conflicts(fileid, clientid, false),
{
}

/// While a file has a delegation, no second one is handed out for it.
pub proof fn law_one_delegation_per_file(m: DelegationManager, fileid: u64, want_flags: u32)
    requires
        m.delegations@.contains_key(fileid),
    ensures
        m.due(fileid, want_flags) is None,
{
}

// ---------------------------------------------------------------------------
// What the answer to an open says
// ---------------------------------------------------------------------------

/// The name that stands for everyone.
pub open spec fn everyone() -> Seq<u8> {
    // "EVERYONE@"
    seq![69u8, 86u8, 69u8, 82u8, 89u8, 79u8, 78u8, 69u8, 64u8]
}

/// The entry that lets everyone in.
pub open spec fn everyone_entry() -> Seq<u8> {
    be32(0) + be32(0) + be32(0) + opaque(everyone())
}

/// What the answer to an open says of a delegation.
pub open spec fn open_delegation_bytes(delegation: Option<Delegation>) -> Seq<u8> {
    match delegation {
        None => be32(0),
        Some(d) => match d.deleg_type {
            DelegationType::NoDelegation => be32(0),
            DelegationType::Read => be32(1) + d.stateid.encoding() + be_bool(false)
                + everyone_entry(),
            DelegationType::Write => be32(2) + d.stateid.encoding() + be_bool(false) + be32(1)
                + be64(u64::MAX) + everyone_entry(),
        },
    }
}

fn put_everyone(out: &mut Vec<u8>)
    ensures
        final(out)@ == old(out)@ + everyone_entry(),
{
    let ghost o = out@;
    put_u32(out, 0);
    put_u32(out, 0);
    put_u32(out, 0);
    let who: [u8; 9] = [69, 86, 69, 82, 89, 79, 78, 69, 64];
    assert(who@ =~= everyone());
    put_opaque(out, vstd::array::array_as_slice(&who));
    assert(out@ =~= o + everyone_entry());
}

/// What the answer to an open says of a delegation.
pub fn encode_open_delegation(delegation: &Option<Delegation>) -> (r: Vec<u8>)
    ensures
        r@ == open_delegation_bytes(*delegation),
{
    let mut out: Vec<u8> = Vec::new();
    match delegation {
        None => {
            put_u32(&mut out, 0);
        },
        Some(d) => match d.deleg_type {
            DelegationType::NoDelegation => {
                put_u32(&mut out, 0);
            },
            DelegationType::Read => {
                put_u32(&mut out, 1);
                let _ = d.stateid.serialize(&mut out);
                put_bool(&mut out, false);
                put_everyone(&mut out);
            },
            DelegationType::Write => {
                put_u32(&mut out, 2);
                let _ = d.stateid.serialize(&mut out);
                put_bool(&mut out, false);
                put_u32(&mut out, 1);
                put_u64(&mut out, u64::MAX);
                put_everyone(&mut out);
            },
        },
    }
    assert(out@ =~= open_delegation_bytes(*delegation));
    out
}

} // verus!
