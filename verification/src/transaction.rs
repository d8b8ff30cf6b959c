//! Telling calls apart from those that are sent again.

use crate::bytes::bytes_eq;
use crate::text::text_bytes;
use crate::time::{unix_time, Duration};
use vstd::prelude::*;

verus! {

/// How far a call has come.
#[derive(Clone, Copy, Debug)]
pub enum TransactionState {
    InProgress,
    /// It was answered at this moment.
    Completed(Duration),
}

/// A call of a client.
#[derive(Debug)]
pub struct Transaction {
    pub xid: u32,
    pub client: String,
    pub state: TransactionState,
}

impl Transaction {
    /// Whether this is a client's call of that number.
    pub open spec fn is(&self, xid: u32, client: Seq<u8>) -> bool {
        self.xid == xid && text_bytes(self.client@) == client
    }

    fn is_call(&self, xid: u32, client: &str) -> (r: bool)
        ensures
            r == self.is(xid, text_bytes(client@)),
    {
        self.xid == xid && bytes_eq(self.client.as_str().as_bytes(), client.as_bytes())
    }

    /// Whether the call is still remembered: until it was answered, and for some time after.
    pub open spec fn lasts(&self, now: Duration, retention: Duration) -> bool {
        match self.state {
            TransactionState::InProgress => true,
            TransactionState::Completed(t) => t.nanos + retention.nanos >= now.nanos,
        }
    }

    fn is_kept(&self, now: Duration, retention: Duration) -> (r: bool)
        ensures
            r == self.lasts(now, retention),
    {
        match self.state {
            TransactionState::InProgress => true,
            TransactionState::Completed(t) => t.nanos >= now.nanos || now.nanos - t.nanos
                <= retention.nanos,
        }
    }
}

/// The calls that are remembered.
#[derive(Debug)]
pub struct TransactionTracker {
    pub retention_period: Duration,
    pub transactions: Vec<Transaction>,
}

/// The calls that are still remembered.
pub open spec fn kept(s: Seq<Transaction>, now: Duration, retention: Duration) -> Seq<Transaction>
    decreases s.len(),
{
    if s.len() == 0 {
        Seq::empty()
    } else if s.last().lasts(now, retention) {
        kept(s.drop_last(), now, retention).push(s.last())
    } else {
        kept(s.drop_last(), now, retention)
    }
}

/// Whether a call is among others.
pub open spec fn among(s: Seq<Transaction>, xid: u32, client: Seq<u8>) -> bool {
    exists|i: int| 0 <= i < s.len() && (#[trigger] s[i]).is(xid, client)
}

impl TransactionTracker {
    /// No call is remembered twice.
    pub open spec fn wf(&self) -> bool {
        forall|i: int, j: int|
            0 <= i < j < self.transactions@.len() ==> !(#[trigger] self.transactions@[i]).is(
                (#[trigger] self.transactions@[j]).xid,
                text_bytes(self.transactions@[j].client@),
            )
    }

    /// Calls are remembered for the given time after they were answered.
    pub fn new(retention_period: Duration) -> (r: Self)
        ensures
            r.wf(),
            r.retention_period == retention_period,
            r.transactions@.len() == 0,
    {
        TransactionTracker { retention_period, transactions: Vec::new() }
    }

    /// What asking comes to whether a call was sent before: what is too old is forgotten, and a
    /// new call is in progress from now on.
    pub open spec fn has_seen(
        &self,
        before: &TransactionTracker,
        now: Duration,
        xid: u32,
        client: Seq<u8>,
        r: bool,
    ) -> bool {
        let old = kept(before.transactions@, now, before.retention_period);
        &&& self.retention_period == before.retention_period
        &&& r == among(old, xid, client)
        &&& if r {
            self.transactions@ == old
        } else {
            &&& self.transactions@.len() == old.len() + 1
            &&& self.transactions@.drop_last() == old
            &&& self.transactions@.last().is(xid, client)
            &&& self.transactions@.last().state is InProgress
        }
    }

    fn housekeeping(&mut self, now: Duration)
        requires
            old(self).wf(),
        ensures
            final(self).wf(),
            final(self).retention_period == old(self).retention_period,
            final(self).transactions@ == kept(
                old(self).transactions@,
                now,
                old(self).retention_period,
            ),
    {
        let mut rest: Vec<Transaction> = Vec::new();
        let mut all: Vec<Transaction> = Vec::new();
        std::mem::swap(&mut all, &mut self.transactions);
        let ghost s = all@;
        let retention = self.retention_period;
        // What is left is taken from behind, so it has to be turned round in the end.
        while all.len() > 0
            invariant
                all@.len() <= s.len(),
                all@ == s.take(all@.len() as int),
                kept(s, now, retention) == kept(all@, now, retention) + rest@.reverse(),
            decreases all@.len(),
        {
            let ghost before = all@;
            let ghost r0 = rest@;
            if let Some(t) = all.pop() {
                assert(all@ =~= before.drop_last());
                assert(all@ =~= s.take(all@.len() as int));
                if t.is_kept(now, retention) {
                    rest.push(t);
                    assert(rest@.reverse() =~= seq![t] + r0.reverse());
                    assert(kept(before, now, retention) + r0.reverse() =~= kept(
                        all@,
                        now,
                        retention,
                    ) + rest@.reverse());
                }
            }
        }
        assert(kept(all@, now, retention) =~= Seq::empty());
        let ghost turned = rest@.reverse();
        assert(kept(s, now, retention) =~= turned);
        let ghost all_rest = rest@;
        assert(self.transactions@ =~= Seq::empty());
        while rest.len() > 0
            invariant
                rest@ == all_rest.take(rest@.len() as int),
                rest@.len() <= all_rest.len(),
                self.transactions@ == all_rest.reverse().take(all_rest.len() - rest@.len()),
                self.retention_period == retention,
            decreases rest@.len(),
        {
            let ghost before = rest@;
            if let Some(t) = rest.pop() {
                assert(rest@ =~= before.drop_last());
                assert(rest@ =~= all_rest.take(rest@.len() as int));
                assert(t == all_rest.reverse()[all_rest.len() - before.len()]);
                self.transactions.push(t);
                assert(self.transactions@ =~= all_rest.reverse().take(
                    all_rest.len() - rest@.len(),
                ));
            }
        }
        assert(self.transactions@ =~= turned);
        proof {
            kept_is_distinct(s, now, retention);
        }
    }

    /// Whether a client has sent a call before. One that is new is in progress from now on.
    pub fn is_retransmission_at(&mut self, now: Duration, xid: u32, client: &str) -> (r: bool)
        requires
            old(self).wf(),
        ensures
            final(self).wf(),
            final(self).has_seen(old(self), now, xid, text_bytes(client@), r),
    {
        self.housekeeping(now);
        let ghost old_ones = self.transactions@;
        let mut i: usize = 0;
        while i < self.transactions.len()
            invariant
                i <= self.transactions@.len(),
                self.wf(),
                self.transactions@ == old_ones,
                self.retention_period == old(self).retention_period,
                old_ones == kept(old(self).transactions@, now, old(self).retention_period),
                forall|j: int|
                    0 <= j < i ==> !(#[trigger] self.transactions@[j]).is(
                        xid,
                        text_bytes(client@),
                    ),
            decreases self.transactions@.len() - i,
        {
            if self.transactions[i].is_call(xid, client) {
                assert(old_ones[i as int].is(xid, text_bytes(client@)));
                return true;
            }
            i += 1;
        }
        self.transactions.push(
            Transaction { xid, client: client.to_owned(), state: TransactionState::InProgress },
        );
        assert(self.transactions@.drop_last() =~= old_ones);
        proof {
            assert forall|i: int, j: int|
                0 <= i < j < self.transactions@.len() implies !(#[trigger] self.transactions@[i]).is(
                (#[trigger] self.transactions@[j]).xid,
                text_bytes(self.transactions@[j].client@),
            ) by {
                assert(self.transactions@[i] == old_ones[i]);
                if j < old_ones.len() {
                    assert(self.transactions@[j] == old_ones[j]);
                }
            }
        }
        false
    }

    /// Whether a client has sent a call before. One that is new is in progress from now on.
    pub fn is_retransmission(&mut self, xid: u32, client: &str) -> (r: bool)
        requires
            old(self).wf(),
        ensures
            final(self).wf(),
            exists|now: Duration| #[trigger]
                final(self).has_seen(old(self), now, xid, text_bytes(client@), r),
    {
        let now = unix_time();
        self.is_retransmission_at(now, xid, client)
    }

    /// What it comes to that a call was answered.
    pub open spec fn has_marked(
        &self,
        before: &TransactionTracker,
        now: Duration,
        xid: u32,
        client: Seq<u8>,
    ) -> bool {
        &&& self.retention_period == before.retention_period
        &&& self.transactions@.len() == before.transactions@.len()
        &&& forall|i: int|
            0 <= i < self.transactions@.len() ==> #[trigger] self.transactions@[i]
                == if before.transactions@[i].is(xid, client) {
                Transaction {
                    state: TransactionState::Completed(now),
                    ..before.transactions@[i]
                }
            } else {
                before.transactions@[i]
            }
    }

    /// A call was answered.
    pub fn mark_processed_at(&mut self, now: Duration, xid: u32, client: &str)
        requires
            old(self).wf(),
        ensures
            final(self).wf(),
            final(self).has_marked(old(self), now, xid, text_bytes(client@)),
    {
        let ghost before = *self;
        let mut i: usize = 0;
        while i < self.transactions.len()
            invariant
                i <= self.transactions@.len(),
                before.wf(),
                self.retention_period == before.retention_period,
                self.transactions@.len() == before.transactions@.len(),
                forall|j: int|
                    0 <= j < i ==> #[trigger] self.transactions@[j]
                        == if before.transactions@[j].is(xid, text_bytes(client@)) {
                        Transaction {
                            state: TransactionState::Completed(now),
                            ..before.transactions@[j]
                        }
                    } else {
                        before.transactions@[j]
                    },
                forall|j: int|
                    i <= j < self.transactions@.len() ==> #[trigger] self.transactions@[j]
                        == before.transactions@[j],
            decreases self.transactions@.len() - i,
        {
            if self.transactions[i].is_call(xid, client) {
                self.transactions[i].state = TransactionState::Completed(now);
            }
            i += 1;
        }
        proof {
            assert forall|i: int, j: int|
                0 <= i < j < self.transactions@.len() implies !(#[trigger] self.transactions@[i]).is(
                (#[trigger] self.transactions@[j]).xid,
                text_bytes(self.transactions@[j].client@),
            ) by {
                assert(!before.transactions@[i].is(
                    before.transactions@[j].xid,
                    text_bytes(before.transactions@[j].client@),
                ));
            }
        }
    }

    /// A call was answered.
    pub fn mark_processed(&mut self, xid: u32, client: &str)
        requires
            old(self).wf(),
        ensures
            final(self).wf(),
            exists|now: Duration| #[trigger]
                final(self).has_marked(old(self), now, xid, text_bytes(client@)),
    {
        let now = unix_time();
        self.mark_processed_at(now, xid, client);
    }
}

proof fn kept_comes_from(
    s: Seq<Transaction>,
    now: Duration,
    retention: Duration,
    i: int,
) -> (j: int)
    requires
        0 <= i < kept(s, now, retention).len(),
    ensures
        i <= j < s.len(),
        s[j] == kept(s, now, retention)[i],
    decreases s.len(),
{
    let init = kept(s.drop_last(), now, retention);
    if s.last().lasts(now, retention) && i == init.len() {
        kept_is_short(s.drop_last(), now, retention);
        s.len() - 1
    } else {
        kept_comes_from(s.drop_last(), now, retention, i)
    }
}

proof fn kept_is_short(s: Seq<Transaction>, now: Duration, retention: Duration)
    ensures
        kept(s, now, retention).len() <= s.len(),
    decreases s.len(),
{
    if s.len() > 0 {
        kept_is_short(s.drop_last(), now, retention);
    }
}

proof fn kept_is_distinct(s: Seq<Transaction>, now: Duration, retention: Duration)
    requires
        forall|i: int, j: int|
            0 <= i < j < s.len() ==> !(#[trigger] s[i]).is(
                (#[trigger] s[j]).xid,
                text_bytes(s[j].client@),
            ),
    ensures
        forall|i: int, j: int|
            0 <= i < j < kept(s, now, retention).len() ==> !(#[trigger] kept(s, now, retention)[i]).is(
                (#[trigger] kept(s, now, retention)[j]).xid,
                text_bytes(kept(s, now, retention)[j].client@),
            ),
    decreases s.len(),
{
    if s.len() > 0 {
        let t = s.drop_last();
        let k = kept(s, now, retention);
        let init = kept(t, now, retention);
        assert forall|i: int, j: int| 0 <= i < j < t.len() implies !(#[trigger] t[i]).is(
            (#[trigger] t[j]).xid,
            text_bytes(t[j].client@),
        ) by {
            assert(t[i] == s[i] && t[j] == s[j]);
        }
        kept_is_distinct(t, now, retention);
        assert forall|i: int, j: int| 0 <= i < j < k.len() implies !(#[trigger] k[i]).is(
            (#[trigger] k[j]).xid,
            text_bytes(k[j].client@),
        ) by {
            if j < init.len() {
                assert(k[i] == init[i] && k[j] == init[j]);
            } else {
                assert(k[i] == init[i]);
                let a = kept_comes_from(t, now, retention, i);
                assert(s[a] == k[i]);
                assert(k[j] == s[s.len() - 1]);
            }
        }
    }
}

/// A call that is in progress is known when it is sent again.
pub proof fn law_call_sent_again_is_known(
    a: TransactionTracker,
    b: TransactionTracker,
    c: TransactionTracker,
    now: Duration,
    later: Duration,
    xid: u32,
    client: Seq<u8>,
    r: bool,
    r2: bool,
)
    requires
        b.has_seen(&a, now, xid, client, r),
        !r,
        c.has_seen(&b, later, xid, client, r2),
    ensures
        r2,
{
    let old = kept(b.transactions@, later, b.retention_period);
    let t = b.transactions@.last();
    assert(old[old.len() - 1] == t);
    assert(old[old.len() - 1].is(xid, client));
}

proof fn kept_keeps(s: Seq<Transaction>, now: Duration, retention: Duration, i: int) -> (j: int)
    requires
        0 <= i < s.len(),
        s[i].lasts(now, retention),
    ensures
        0 <= j < kept(s, now, retention).len(),
        kept(s, now, retention)[j] == s[i],
    decreases s.len(),
{
    let init = kept(s.drop_last(), now, retention);
    if i == s.len() - 1 {
        init.len() as int
    } else {
        let j = kept_keeps(s.drop_last(), now, retention, i);
        assert(kept(s, now, retention)[j] == init[j]);
        j
    }
}

/// A call that was answered is known when it is sent again, as long as it is remembered.
pub proof fn law_answered_call_is_known(
    a: TransactionTracker,
    b: TransactionTracker,
    c: TransactionTracker,
    now: Duration,
    later: Duration,
    xid: u32,
    client: Seq<u8>,
    r: bool,
)
    requires
        among(a.transactions@, xid, client),
        b.has_marked(&a, now, xid, client),
        later.nanos <= now.nanos + a.retention_period.nanos,
        c.has_seen(&b, later, xid, client, r),
    ensures
        r,
{
    let i = choose|i: int|
        0 <= i < a.transactions@.len() && (#[trigger] a.transactions@[i]).is(xid, client);
    assert(b.transactions@[i].is(xid, client));
    let j = kept_keeps(b.transactions@, later, b.retention_period, i);
    assert(kept(b.transactions@, later, b.retention_period)[j].is(xid, client));
}

} // verus!
