//! What clients come to in time, and how long what they ask is.

use crate::bytes::{be32_at, XdrError};
use crate::client::{ClientManager, ClientState};
use crate::compound::Nfs4Op;
use crate::error::Nfs4Result;
use crate::skip::{args_len, has_layout, op_len, ops_len, rest_len};
use crate::table::without;
use crate::time::Duration;
use crate::types::{ClientOwner4, Clientid4};
use vstd::prelude::*;

verus! {

/// A client of a name that is not known is entered under a new id: with its name and number, not
/// confirmed, with nothing to take back, heard of now, and to be heard of again within 90 seconds.
/// The first session that it makes has the number 1. All other clients stay.
pub proof fn law_new_client_is_entered(
    before: ClientManager,
    after: ClientManager,
    now: Duration,
    owner: ClientOwner4,
    r: Nfs4Result<(Clientid4, u32, u32)>,
    other: Clientid4,
)
    requires
        after.has_exchanged(&before, now, owner, r),
        forall|c: Clientid4| !#[trigger] before.owned_by(c, owner.co_ownerid@),
        before.next_clientid <= 0xffff_ffff,
    ensures
        r is Ok,
        r->Ok_0.1 == 1,
        r->Ok_0.2 == 0,
        !before.clients@.contains_key(r->Ok_0.0),
        after.clients@.contains_key(r->Ok_0.0),
        ({
            let c = after.clients@[r->Ok_0.0];
            &&& c.clientid == r->Ok_0.0
            &&& c.owner == owner
            &&& !c.confirmed
            &&& !c.reclaim_complete
            &&& !c.allow_reclaim
            &&& c.last_renew == now
            &&& c.lease_time.nanos / 1_000_000_000 == 90
            &&& c.create_session_sequence == 1
        }),
        before.clients@.contains_key(other) ==> after.clients@.contains_key(other)
            && after.clients@[other] == before.clients@[other],
        after.next_clientid == before.next_clientid + 1,
{
    let id = r->Ok_0.0;
    assert(after.clients@.dom().contains(id));
    if before.clients@.contains_key(other) {
        assert(after.clients@.remove(id).contains_key(other));
        assert(after.clients@.remove(id)[other] == before.clients@[other]);
    }
}

/// A client that is known and has not started anew is told whether it was confirmed.
pub proof fn law_known_client_is_told_whether_it_was_confirmed(
    before: ClientManager,
    after: ClientManager,
    now: Duration,
    owner: ClientOwner4,
    r: Nfs4Result<(Clientid4, u32, u32)>,
    c: Clientid4,
)
    requires
        before.wf(),
        after.has_exchanged(&before, now, owner, r),
        before.owned_by(c, owner.co_ownerid@),
        before.clients@[c].owner.co_verifier@ == owner.co_verifier@,
    ensures
        r is Ok,
        r->Ok_0.0 == c,
        r->Ok_0.2 == if before.clients@[c].confirmed {
            1u32
        } else {
            0u32
        },
{
    assert(before.client_of(owner.co_ownerid@) == Some(c));
}

/// Clients that were not heard of for longer than their lease are given up, and no others.
pub proof fn law_silent_clients_are_given_up(
    before: ClientManager,
    after: ClientManager,
    now: Duration,
    r: Seq<Clientid4>,
    c: Clientid4,
)
    requires
        after.has_cleaned_up(&before, now, r),
        before.clients@.contains_key(c),
    ensures
        r.contains(c) <==> now.nanos - before.clients@[c].last_renew.nanos
            > before.clients@[c].lease_time.nanos,
        after.clients@.contains_key(c) <==> !r.contains(c),
        !r.contains(c) ==> after.clients@[c] == before.clients@[c],
{
    assert(r.contains(c) <==> before.clients@.contains_key(c) && before.clients@[c].expired_at(now));
}

/// What is taken out of a list is no longer in it, and everything else is.
pub proof fn law_list_loses_what_is_taken_out(v: Seq<u128>, x: u128, y: u128)
    ensures
        without(v, x).contains(y) <==> v.contains(y) && y != x,
    decreases v.len(),
{
    if v.len() > 0 {
        let less = v.drop_last();
        law_list_loses_what_is_taken_out(less, x, y);
        let w = without(v, x);
        let u = without(less, x);
        if w.contains(y) {
            let i = choose|i: int| 0 <= i < w.len() && w[i] == y;
            if i < u.len() {
                assert(u[i] == y);
                let j = choose|j: int| 0 <= j < less.len() && less[j] == y;
                assert(v[j] == y);
            } else {
                assert(v[v.len() - 1] == y);
            }
        }
        if v.contains(y) && y != x {
            let j = choose|j: int| 0 <= j < v.len() && v[j] == y;
            if j < less.len() {
                assert(less[j] == y);
                let i = choose|i: int| 0 <= i < u.len() && u[i] == y;
                assert(w[i] == y);
            } else {
                assert(w[u.len() as int] == y);
            }
        }
    }
}

/// How many bytes the arguments of the operations take whose arguments are always as long, and that
/// some operations have none.
pub proof fn law_arguments_take_their_bytes(s: Seq<u8>)
    requires
        s.len() >= 64,
    ensures
        args_len(Nfs4Op::Sequence, s) == Ok::<nat, XdrError>(32),
        args_len(Nfs4Op::Access, s) == Ok::<nat, XdrError>(4),
        args_len(Nfs4Op::Close, s) == Ok::<nat, XdrError>(20),
        args_len(Nfs4Op::Commit, s) == Ok::<nat, XdrError>(12),
        args_len(Nfs4Op::Delegreturn, s) == Ok::<nat, XdrError>(16),
        args_len(Nfs4Op::DestroySession, s) == Ok::<nat, XdrError>(16),
        args_len(Nfs4Op::Locku, s) == Ok::<nat, XdrError>(40),
        args_len(Nfs4Op::OpenConfirm, s) == Ok::<nat, XdrError>(20),
        args_len(Nfs4Op::OpenDowngrade, s) == Ok::<nat, XdrError>(28),
        args_len(Nfs4Op::Read, s) == Ok::<nat, XdrError>(28),
        args_len(Nfs4Op::ReclaimComplete, s) == Ok::<nat, XdrError>(4),
        args_len(Nfs4Op::Renew, s) == Ok::<nat, XdrError>(8),
        args_len(Nfs4Op::SecinfoNoName, s) == Ok::<nat, XdrError>(4),
        args_len(Nfs4Op::SetclientidConfirm, s) == Ok::<nat, XdrError>(16),
        args_len(Nfs4Op::Getfh, s) == Ok::<nat, XdrError>(0),
        args_len(Nfs4Op::Lookupp, s) == Ok::<nat, XdrError>(0),
        args_len(Nfs4Op::Putpubfh, s) == Ok::<nat, XdrError>(0),
        args_len(Nfs4Op::Putrootfh, s) == Ok::<nat, XdrError>(0),
        args_len(Nfs4Op::Readlink, s) == Ok::<nat, XdrError>(0),
        args_len(Nfs4Op::Restorefh, s) == Ok::<nat, XdrError>(0),
        args_len(Nfs4Op::Savefh, s) == Ok::<nat, XdrError>(0),
{
    broadcast use {crate::bytes::skip_skip, crate::bytes::skip_nothing};

}

/// Operations that are not run are passed over one after the other, each with its number and its
/// arguments; behind one whose arguments are not known, nothing is.
pub proof fn law_operations_are_passed_over_in_turn(op: Nfs4Op, s: Seq<u8>, count: nat)
    ensures
        ops_len(s, 0) == Ok::<nat, XdrError>(0),
        s.len() >= 4 && has_layout(Nfs4Op::of_code(be32_at(s))) && args_len(
            Nfs4Op::of_code(be32_at(s)),
            s.skip(4),
        ) is Ok ==> ({
            let n = 4 + args_len(Nfs4Op::of_code(be32_at(s)), s.skip(4))->Ok_0;
            match ops_len(s.skip(n as int), count) {
                Ok(m) => ops_len(s, count + 1) == Ok::<nat, XdrError>(n + m),
                Err(e) => ops_len(s, count + 1) == Err::<nat, XdrError>(e),
            }
        }),
        s.len() >= 4 && !has_layout(Nfs4Op::of_code(be32_at(s))) ==> ops_len(s, count + 1) == Ok::<
            nat,
            XdrError,
        >(4),
        s.len() < 4 ==> ops_len(s, count + 1) is Err,
        has_layout(op) && args_len(op, s) is Ok && ops_len(
            s.skip(args_len(op, s)->Ok_0 as int),
            count,
        ) is Ok ==> rest_len(op, s, count) == Ok::<nat, XdrError>(
            args_len(op, s)->Ok_0 + ops_len(s.skip(args_len(op, s)->Ok_0 as int), count)->Ok_0,
        ),
        !has_layout(op) ==> rest_len(op, s, count) == Ok::<nat, XdrError>(0),
        has_layout(op) && args_len(op, s) is Err ==> rest_len(op, s, count) is Err,
{
}

/// The operations whose arguments are not known are those on layouts, devices, callbacks,
/// connections, single stateids and what is no operation.
pub proof fn law_arguments_are_known_of_most(op: Nfs4Op)
    ensures
        !has_layout(op) <==> op.code_of() == 7 || 40 <= op.code_of() <= 41 || 45 <= op.code_of()
            <= 51 || 54 <= op.code_of() <= 57 || op.code_of() == 10044,
{
}

} // verus!
