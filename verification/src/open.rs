//! Opens: which clients have which files open, for what, and what they deny to others.

use crate::bytes::{
    be64, be64_round_trip, bytes_eq, bytes_vec, key12, key12_injective, key_of12, le32, le32_at,
    le32_round_trip, put_le32, put_u64, to_array,
};
use crate::error::{fails_with, failure, Nfs4Result, Nfs4Status};
use crate::table::{
    indexed, indexed_drop_all, indexed_insert, indexed_remove, indexed_update, keys128,
    take_one_more, KeyIndex, OwnerTable,
};
use crate::time::boot_time;
use crate::types::{Clientid4, Fileid4, Stateid4};
use std::collections::HashMap;
use vstd::prelude::*;

verus! {

broadcast use vstd::std_specs::hash::group_hash_axioms;

/// The bit of an access mode for reading, and of a deny mode for keeping others from reading.
pub const SHARE_READ: u32 = 1;

/// The bit of an access mode for writing, and of a deny mode for keeping others from writing.
pub const SHARE_WRITE: u32 = 2;

/// A file that is open.
#[derive(Debug)]
pub struct OpenState {
    /// As it was handed out first.
    pub stateid: Stateid4,
    pub clientid: Clientid4,
    /// What the client calls the owner of the open.
    pub owner_val: Vec<u8>,
    pub fileid: Fileid4,
    pub path: String,
    pub share_access: u32,
    pub share_deny: u32,
    /// Counts the changes.
    pub seqid: u32,
    /// Whether the client has confirmed the open.
    pub confirmed: bool,
}

impl OpenState {
    /// An open that has just been made.
    pub fn new(
        stateid: Stateid4,
        clientid: Clientid4,
        owner_val: Vec<u8>,
        fileid: Fileid4,
        path: String,
        access: u32,
        deny: u32,
    ) -> (r: Self)
        ensures
            r == (OpenState {
                stateid,
                clientid,
                owner_val,
                fileid,
                path,
                share_access: access,
                share_deny: deny,
                seqid: 1,
                confirmed: false,
            }),
    {
        OpenState {
            stateid,
            clientid,
            owner_val,
            fileid,
            path,
            share_access: access,
            share_deny: deny,
            seqid: 1,
            confirmed: false,
        }
    }

    /// How many changes there were.
    pub fn seqid(&self) -> (r: u32)
        ensures
            r == self.seqid,
    {
        self.seqid
    }

    /// The open after one more change.
    pub open spec fn counting(self) -> OpenState {
        OpenState { seqid: self.seqid.wrapping_add(1), ..self }
    }

    /// Counts a change.
    pub fn next_seqid(&mut self) -> (r: u32)
        ensures
            *final(self) == old(self).counting(),
            r == final(self).seqid,
    {
        self.seqid = self.seqid.wrapping_add(1);
        self.seqid
    }

    /// Whether the client has confirmed the open.
    pub fn is_confirmed(&self) -> (r: bool)
        ensures
            r == self.confirmed,
    {
        self.confirmed
    }

    /// Sets whether the client has confirmed the open.
    pub fn set_confirmed(&mut self, confirmed: bool)
        ensures
            *final(self) == (OpenState { confirmed, ..*old(self) }),
    {
        self.confirmed = confirmed;
    }

    /// What the file is open for.
    pub fn get_access(&self) -> (r: u32)
        ensures
            r == self.share_access,
    {
        self.share_access
    }

    /// What is denied to others.
    pub fn get_deny(&self) -> (r: u32)
        ensures
            r == self.share_deny,
    {
        self.share_deny
    }

    /// Whether the file is open for reading.
    pub fn can_read(&self) -> (r: bool)
        ensures
            r == (self.share_access & SHARE_READ != 0),
    {
        self.share_access & SHARE_READ != 0
    }

    /// Whether the file is open for writing.
    pub fn can_write(&self) -> (r: bool)
        ensures
            r == (self.share_access & SHARE_WRITE != 0),
    {
        self.share_access & SHARE_WRITE != 0
    }

    /// The open after it was reduced to the given modes.
    pub open spec fn downgraded(self, access: u32, deny: u32) -> OpenState {
        OpenState { share_access: access, share_deny: deny, ..self }.counting()
    }

    /// Reduces the open to the given modes, which counts as a change.
    pub fn downgrade_access(&mut self, new_access: u32, new_deny: u32)
        ensures
            *final(self) == old(self).downgraded(new_access, new_deny),
    {
        self.share_access = new_access;
        self.share_deny = new_deny;
        let _: u32 = self.next_seqid();
    }
}

/// Whether a file can not be open both ways: one side wants what the other denies.
pub open spec fn shares_clash(access: u32, deny: u32, access2: u32, deny2: u32) -> bool {
    ||| access & SHARE_READ != 0 && deny2 & SHARE_READ != 0
    ||| access & SHARE_WRITE != 0 && deny2 & SHARE_WRITE != 0
    ||| deny & SHARE_READ != 0 && access2 & SHARE_READ != 0
    ||| deny & SHARE_WRITE != 0 && access2 & SHARE_WRITE != 0
}

/// All opens.
pub struct OpenManager {
    /// By the number of the state id.
    pub states: HashMap<u128, OpenState>,
    pub file_opens: KeyIndex,
    pub client_opens: KeyIndex,
    /// The open that was last made for a file and an owner, which is a client together with what the
    /// client calls it.
    pub file_owner_state: OwnerTable,
    pub next_stateid: u32,
    pub boot_time: u64,
}

/// What tells the open apart that is made `n`th by a server that started at `boot`.
pub open spec fn open_other(boot: u64, n: u32) -> Seq<u8> {
    le32(boot as u32) + le32(n) + le32(0)
}

proof fn parts_of_open(boot: u64, n: u32)
    ensures
        open_other(boot, n).len() == 12,
        le32_at(open_other(boot, n).skip(4)) == n,
{
    le32_round_trip(n, le32(0), le32(0));
    assert(open_other(boot, n).skip(4) =~= le32(n) + le32(0));
}

/// Opens that were made at different times have different ids.
pub proof fn law_open_ids_differ(boot: u64, n: u32, m: u32)
    requires
        n != m,
    ensures
        open_other(boot, n) != open_other(boot, m),
{
    parts_of_open(boot, n);
    parts_of_open(boot, m);
}

/// What an open is noted under: its file, and its owner, which is a client together with what the
/// client calls it.
pub open spec fn open_key(clientid: Clientid4, fileid: Fileid4, owner_val: Seq<u8>) -> (
    u64,
    Seq<u8>,
) {
    (fileid, be64(clientid) + owner_val)
}

/// Opens of different clients, of different files or of what a client calls differently are noted
/// apart from each other.
pub proof fn law_owners_are_told_apart(
    clientid: Clientid4,
    fileid: Fileid4,
    owner_val: Seq<u8>,
    clientid2: Clientid4,
    fileid2: Fileid4,
    owner_val2: Seq<u8>,
)
    requires
        open_key(clientid, fileid, owner_val) == open_key(clientid2, fileid2, owner_val2),
    ensures
        clientid == clientid2,
        fileid == fileid2,
        owner_val == owner_val2,
{
    be64_round_trip(clientid, owner_val);
    be64_round_trip(clientid2, owner_val2);
    assert((be64(clientid) + owner_val).skip(8) =~= owner_val);
    assert((be64(clientid2) + owner_val2).skip(8) =~= owner_val2);
}

fn owner_name(clientid: Clientid4, owner_val: &[u8]) -> (r: Vec<u8>)
    ensures
        r@ == be64(clientid) + owner_val@,
{
    let mut name: Vec<u8> = Vec::new();
    put_u64(&mut name, clientid);
    let mut rest = bytes_vec(owner_val);
    name.append(&mut rest);
    assert(name@ =~= be64(clientid) + owner_val@);
    name
}

impl OpenManager {
    /// The client that an open belongs to.
    pub open spec fn client() -> spec_fn(OpenState) -> u64 {
        |s: OpenState| s.clientid
    }

    /// The file that an open is of.
    pub open spec fn file() -> spec_fn(OpenState) -> u64 {
        |s: OpenState| s.fileid
    }

    /// Whether this is an id that has not been handed out yet.
    pub open spec fn will_hand_out(&self, other: Seq<u8>) -> bool {
        exists|n: u32| n >= self.next_stateid && other == #[trigger] open_other(self.boot_time, n)
    }

    /// Whether what is noted under `o` is an open that is there, and belongs under it.
    pub open spec fn note_ok(&self, o: (u64, Seq<u8>)) -> bool {
        let k = self.file_owner_state@[o];
        let s = self.states@[k];
        self.states@.contains_key(k) && o == open_key(s.clientid, s.fileid, s.owner_val@)
    }

    /// Opens stand under their ids, none of which is still to be handed out, and each is listed
    /// with its file and with its client. What is noted for a file and an owner is an open of that
    /// file and owner.
    pub open spec fn wf(&self) -> bool {
        &&& forall|k: u128| #[trigger]
            self.states@.contains_key(k) ==> key12(self.states@[k].stateid.other@) == k
                && !self.will_hand_out(self.states@[k].stateid.other@)
        &&& indexed(self.states@, self.file_opens, Self::file())
        &&& indexed(self.states@, self.client_opens, Self::client())
        &&& forall|o: (u64, Seq<u8>)| #[trigger]
            self.file_owner_state@.contains_key(o) ==> self.note_ok(o)
    }

    /// No opens.
    pub fn new() -> (r: Self)
        ensures
            r.wf(),
            r.states@ == Map::<u128, OpenState>::empty(),
            r.file_owner_state@ == Map::<(u64, Seq<u8>), u128>::empty(),
            r.next_stateid == 1,
    {
        OpenManager {
            states: HashMap::new(),
            file_opens: KeyIndex::new(),
            client_opens: KeyIndex::new(),
            file_owner_state: OwnerTable::new(),
            next_stateid: 1,
            boot_time: boot_time(),
        }
    }

    fn generate_stateid(&mut self) -> (r: Stateid4)
        requires
            old(self).next_stateid < u32::MAX,
        ensures
            r.seqid == 1,
            r.other@ == open_other(old(self).boot_time, old(self).next_stateid),
            *final(self) == (OpenManager {
                next_stateid: (old(self).next_stateid + 1) as u32,
                ..*old(self)
            }),
    {
        let n: u32 = self.next_stateid;
        self.next_stateid = n + 1;
        let mut other: Vec<u8> = Vec::new();
        put_le32(&mut other, #[verifier::truncate] (self.boot_time as u32));
        put_le32(&mut other, n);
        put_le32(&mut other, 0);
        proof {
            parts_of_open(self.boot_time, n);
            assert(other@ =~= open_other(self.boot_time, n));
        }
        Stateid4::new(1, to_array(other.as_slice()))
    }

    /// Whether an open of another client keeps the file from being opened.
    pub open spec fn denies(
        &self,
        k: u128,
        fileid: Fileid4,
        access: u32,
        deny: u32,
        exclude: Option<Clientid4>,
    ) -> bool {
        &&& self.states@.contains_key(k)
        &&& self.states@[k].fileid == fileid
        &&& exclude != Some(self.states@[k].clientid)
        &&& shares_clash(
            access,
            deny,
            self.states@[k].share_access,
            self.states@[k].share_deny,
        )
    }

    /// Whether any open keeps the file from being opened.
    pub open spec fn denied(
        &self,
        fileid: Fileid4,
        access: u32,
        deny: u32,
        exclude: Option<Clientid4>,
    ) -> bool {
        exists|k: u128| #[trigger] self.denies(k, fileid, access, deny, exclude)
    }

    /// Whether the file can be opened besides the opens there are, leaving out those of one
    /// client.
    pub fn check_share_conflict(
        &self,
        fileid: Fileid4,
        access: u32,
        deny: u32,
        exclude_client: Option<Clientid4>,
    ) -> (r: Nfs4Result<()>)
        requires
            self.wf(),
        ensures
            if self.denied(fileid, access, deny, exclude_client) {
                fails_with(r, Nfs4Status::ShareDenied)
            } else {
                r is Ok
            },
    {
        if let Some(keys) = self.file_opens.get(fileid) {
            let mut i: usize = 0;
            while i < keys.len()
                invariant
                    self.wf(),
                    keys@ == self.file_opens.of(fileid),
                    i <= keys.len(),
                    forall|j: int|
                        0 <= j < i ==> !self.denies(
                            #[trigger] keys@[j],
                            fileid,
                            access,
                            deny,
                            exclude_client,
                        ),
                decreases keys.len() - i,
            {
                let k: u128 = keys[i];
                assert(self.file_opens.of(fileid).contains(k));
                if let Some(state) = self.states.get(&k) {
                    let excluded = match exclude_client {
                        Some(c) => state.clientid == c,
                        None => false,
                    };
                    if !excluded {
                        let sa: u32 = state.get_access();
                        let sd: u32 = state.get_deny();
                        if (access & SHARE_READ != 0 && sd & SHARE_READ != 0) || (access
                            & SHARE_WRITE != 0 && sd & SHARE_WRITE != 0) || (deny & SHARE_READ != 0
                            && sa & SHARE_READ != 0) || (deny & SHARE_WRITE != 0 && sa
                            & SHARE_WRITE != 0) {
                            assert(self.denies(k, fileid, access, deny, exclude_client));
                            return failure(Nfs4Status::ShareDenied);
                        }
                    }
                }
                i = i + 1;
            }
            proof {
                if self.denied(fileid, access, deny, exclude_client) {
                    let k = choose|k: u128| #[trigger]
                        self.denies(k, fileid, access, deny, exclude_client);
                    assert(self.file_opens.of(fileid).contains(k));
                    let j = choose|j: int| 0 <= j < keys@.len() && #[trigger] keys@[j] == k;
                    assert(!self.denies(keys@[j], fileid, access, deny, exclude_client));
                }
            }
        } else {
            proof {
                if self.denied(fileid, access, deny, exclude_client) {
                    let k = choose|k: u128| #[trigger]
                        self.denies(k, fileid, access, deny, exclude_client);
                    assert(self.file_opens.of(fileid).contains(k));
                    assert(!Seq::<u128>::empty().contains(k));
                }
            }
        }
        Ok(())
    }

    /// The open that is noted for a file and an owner.
    pub open spec fn noted(&self, clientid: Clientid4, fileid: Fileid4, owner_val: Seq<u8>) -> Option<
        u128,
    > {
        let o = open_key(clientid, fileid, owner_val);
        if self.file_owner_state@.contains_key(o) {
            Some(self.file_owner_state@[o])
        } else {
            None
        }
    }

    /// The same but for the opens.
    pub open spec fn same_rest(&self, before: &OpenManager) -> bool {
        &&& self.next_stateid == before.next_stateid
        &&& self.boot_time == before.boot_time
    }

    /// `self` is `before` with the open under `k` replaced.
    pub open spec fn has_replaced(&self, before: &OpenManager, k: u128, state: OpenState) -> bool {
        &&& self.states@ == before.states@.insert(k, state)
        &&& self.file_owner_state == before.file_owner_state
        &&& self.same_rest(before)
    }

    /// What opening a file comes to.
    pub open spec fn has_opened(
        &self,
        before: &OpenManager,
        clientid: Clientid4,
        owner_val: Vec<u8>,
        fileid: Fileid4,
        path: String,
        access: u32,
        deny: u32,
        r: Nfs4Result<(Stateid4, bool)>,
    ) -> bool {
        let noted = before.noted(clientid, fileid, owner_val@);
        if noted is Some {
            let k = noted->Some_0;
            let s = before.states@[k];
            let more = s.share_access | access != s.share_access || s.share_deny | deny
                != s.share_deny;
            let want_access = if more {
                s.share_access | access
            } else {
                access
            };
            let want_deny = if more {
                s.share_deny | deny
            } else {
                deny
            };
            if before.denied(fileid, want_access, want_deny, Some(clientid)) {
                &&& fails_with(r, Nfs4Status::ShareDenied)
                &&& self.has_replaced(before, k, s)
            } else {
                &&& r == Ok::<(Stateid4, bool), crate::error::Nfs4Error>((s.stateid, false))
                &&& self.has_replaced(
                    before,
                    k,
                    OpenState {
                        share_access: s.share_access | access,
                        share_deny: s.share_deny | deny,
                        ..s
                    },
                )
            }
        } else if before.denied(fileid, access, deny, Some(clientid)) {
            &&& fails_with(r, Nfs4Status::ShareDenied)
            &&& *self == *before
        } else {
            &&& r is Ok
            &&& r->Ok_0.0.seqid == 1
            &&& r->Ok_0.0.other@ == open_other(before.boot_time, before.next_stateid)
            &&& r->Ok_0.1
            &&& {
                let k = key12(r->Ok_0.0.other@);
                &&& !before.states@.contains_key(k)
                &&& self.states@.dom() == before.states@.dom().insert(k)
                &&& self.states@.remove(k) == before.states@
                &&& self.states@[k].stateid == r->Ok_0.0
                &&& self.states@[k].clientid == clientid
                &&& self.states@[k].owner_val == owner_val
                &&& self.states@[k].fileid == fileid
                &&& self.states@[k].path == path
                &&& self.states@[k].share_access == access
                &&& self.states@[k].share_deny == deny
                &&& self.states@[k].seqid == 1
                &&& !self.states@[k].confirmed
                &&& self.file_owner_state@ == before.file_owner_state@.insert(
                    open_key(clientid, fileid, owner_val@),
                    k,
                )
            }
            &&& self.next_stateid == before.next_stateid + 1
            &&& self.boot_time == before.boot_time
        }
    }

    proof fn wf_survives(&self, before: &OpenManager, k: u128, state: OpenState)
        requires
            before.wf(),
            before.states@.contains_key(k),
            self.has_replaced(before, k, state),
            self.file_opens == before.file_opens,
            self.client_opens == before.client_opens,
            state.stateid == before.states@[k].stateid,
            state.clientid == before.states@[k].clientid,
            state.fileid == before.states@[k].fileid,
            state.owner_val@ == before.states@[k].owner_val@,
        ensures
            self.wf(),
    {
        assert forall|o: (u64, Seq<u8>)| #[trigger]
            self.file_owner_state@.contains_key(o) implies self.note_ok(o) by {
            assert(before.note_ok(o));
        }
        assert(self.states@.dom() =~= before.states@.dom());
        indexed_update(before.states@, self.states@, self.file_opens, Self::file());
        indexed_update(before.states@, self.states@, self.client_opens, Self::client());
        assert forall|j: u128| #[trigger] self.states@.contains_key(j) implies key12(
            self.states@[j].stateid.other@,
        ) == j && !self.will_hand_out(self.states@[j].stateid.other@) by {
            assert(before.states@.contains_key(j));
            if self.will_hand_out(self.states@[j].stateid.other@) {
                let n = choose|n: u32|
                    n >= self.next_stateid && self.states@[j].stateid.other@
                        == #[trigger] open_other(self.boot_time, n);
                assert(before.states@[j].stateid.other@ == open_other(before.boot_time, n));
            }
        }
    }

    /// Opens a file. Where the owner has the file open already, that open is widened to what is
    /// asked for now; otherwise a new one is made. The flag says whether it is new.
    pub fn open(
        &mut self,
        clientid: Clientid4,
        owner_val: Vec<u8>,
        fileid: Fileid4,
        path: String,
        access: u32,
        deny: u32,
    ) -> (r: Nfs4Result<(Stateid4, bool)>)
        requires
            old(self).wf(),
            old(self).next_stateid < u32::MAX,
        ensures
            final(self).wf(),
            final(self).has_opened(
                old(self),
                clientid,
                owner_val,
                fileid,
                path,
                access,
                deny,
                r,
            ),
    {
        let name = owner_name(clientid, owner_val.as_slice());
        let existing = self.file_owner_state.get(fileid, name.as_slice());
        if let Some(k) = existing {
            assert(self.note_ok(open_key(clientid, fileid, owner_val@)));
            if let Some(state) = self.states.get(&k) {
                let stateid = state.stateid;
                let current_access: u32 = state.get_access();
                let current_deny: u32 = state.get_deny();
                let new_access: u32 = current_access | access;
                let new_deny: u32 = current_deny | deny;
                let ghost s = *state;
                let check = if new_access != current_access || new_deny != current_deny {
                    self.check_share_conflict(fileid, new_access, new_deny, Some(clientid))
                } else {
                    self.check_share_conflict(fileid, access, deny, Some(clientid))
                };
                if check.is_err() {
                    proof {
                        assert(self.states@ =~= old(self).states@.insert(k, s));
                    }
                    return failure(Nfs4Status::ShareDenied);
                }
                if let Some(mut state) = self.states.remove(&k) {
                    state.share_access = new_access;
                    state.share_deny = new_deny;
                    self.states.insert(k, state);
                }
                proof {
                    let t = OpenState { share_access: new_access, share_deny: new_deny, ..s };
                    assert(self.states@ =~= old(self).states@.insert(k, t));
                    self.wf_survives(old(self), k, t);
                }
                return Ok((stateid, false));
            }
        }
        let check = self.check_share_conflict(fileid, access, deny, Some(clientid));
        if check.is_err() {
            return failure(Nfs4Status::ShareDenied);
        }
        let stateid = self.generate_stateid();
        proof {
            let n = old(self).next_stateid;
            assert(stateid.other@ == open_other(old(self).boot_time, n));
            assert(old(self).will_hand_out(stateid.other@));
            if self.will_hand_out(stateid.other@) {
                let m = choose|m: u32|
                    m >= self.next_stateid && stateid.other@ == #[trigger] open_other(
                        self.boot_time,
                        m,
                    );
                law_open_ids_differ(self.boot_time, n, m);
            }
        }
        self.put(
            Ghost(*old(self)),
            stateid,
            clientid,
            owner_val,
            fileid,
            path,
            access,
            deny,
        );
        assert(self.states@.remove(key12(stateid.other@)) =~= old(self).states@);
        Ok((stateid, true))
    }

    /// Puts a new open into all tables.
    fn put(
        &mut self,
        Ghost(before): Ghost<OpenManager>,
        stateid: Stateid4,
        clientid: Clientid4,
        owner_val: Vec<u8>,
        fileid: Fileid4,
        path: String,
        access: u32,
        deny: u32,
    )
        requires
            before.wf(),
            before.next_stateid <= old(self).next_stateid,
            *old(self) == (OpenManager { next_stateid: old(self).next_stateid, ..before }),
            !before.states@.contains_key(key12(stateid.other@)) || before.will_hand_out(
                stateid.other@,
            ),
            !old(self).will_hand_out(stateid.other@),
        ensures
            final(self).wf(),
            !before.states@.contains_key(key12(stateid.other@)),
            final(self).states@ == before.states@.insert(
                key12(stateid.other@),
                (OpenState {
                    stateid,
                    clientid,
                    owner_val,
                    fileid,
                    path,
                    share_access: access,
                    share_deny: deny,
                    seqid: 1,
                    confirmed: false,
                }),
            ),
            final(self).file_owner_state@ == before.file_owner_state@.insert(
                open_key(clientid, fileid, owner_val@),
                key12(stateid.other@),
            ),
            final(self).same_rest(old(self)),
    {
        let key: u128 = key_of12(&stateid.other);
        proof {
            if before.states@.contains_key(key) {
                key12_injective(before.states@[key].stateid.other@, stateid.other@);
            }
        }
        let name = owner_name(clientid, owner_val.as_slice());
        let state = OpenState::new(stateid, clientid, owner_val, fileid, path, access, deny);
        let ghost s = state;
        self.states.insert(key, state);
        self.file_opens.put(fileid, key);
        self.client_opens.put(clientid, key);
        self.file_owner_state.insert(fileid, name, key);
        proof {
            assert forall|o: (u64, Seq<u8>)| #[trigger]
                self.file_owner_state@.contains_key(o) implies self.note_ok(o) by {
                if o != open_key(clientid, fileid, s.owner_val@) {
                    assert(before.note_ok(o));
                }
            }
            indexed_insert(
                before.states@,
                before.file_opens,
                self.file_opens,
                Self::file(),
                key,
                s,
            );
            indexed_insert(
                before.states@,
                before.client_opens,
                self.client_opens,
                Self::client(),
                key,
                s,
            );
            assert forall|j: u128| #[trigger] self.states@.contains_key(j) implies key12(
                self.states@[j].stateid.other@,
            ) == j && !self.will_hand_out(self.states@[j].stateid.other@) by {
                if self.will_hand_out(self.states@[j].stateid.other@) {
                    let n = choose|n: u32|
                        n >= self.next_stateid && self.states@[j].stateid.other@
                            == #[trigger] open_other(self.boot_time, n);
                    if j == key {
                        assert(stateid.other@ == open_other(old(self).boot_time, n));
                    } else {
                        assert(before.states@[j].stateid.other@ == open_other(
                            before.boot_time,
                            n,
                        ));
                    }
                }
            }
        }
    }

    /// The open that is named, where a state id names one at all.
    pub open spec fn named(&self, stateid: Stateid4) -> Option<u128> {
        if !stateid.special() && self.states@.contains_key(key12(stateid.other@)) {
            Some(key12(stateid.other@))
        } else {
            None
        }
    }

    /// The open with the given state id.
    pub fn get_state(&self, stateid: &Stateid4) -> (r: Option<&OpenState>)
        ensures
            r == match self.named(*stateid) {
                Some(k) => Some(&self.states@[k]),
                None => None,
            },
    {
        if stateid.is_special() {
            return None;
        }
        let key: u128 = key_of12(&stateid.other);
        self.states.get(&key)
    }

    /// What is wrong with a state id, if anything: it has to name an open, and to carry its
    /// present count or none.
    pub open spec fn fault(&self, stateid: Stateid4) -> Option<Nfs4Status> {
        match self.named(stateid) {
            None => Some(Nfs4Status::BadStateid),
            Some(k) => {
                let n = self.states@[k].seqid;
                if stateid.seqid == 0 || stateid.seqid == n {
                    None
                } else if stateid.seqid < n {
                    Some(Nfs4Status::OldStateid)
                } else {
                    Some(Nfs4Status::BadStateid)
                }
            },
        }
    }

    /// The open with the given state id, if that carries its present count or none.
    pub fn verify_stateid(&self, stateid: &Stateid4) -> (r: Nfs4Result<&OpenState>)
        ensures
            match self.fault(*stateid) {
                Some(st) => fails_with(r, st),
                None => r is Ok && *r->Ok_0 == self.states@[key12(stateid.other@)]
                    && self.states@.contains_key(key12(stateid.other@)),
            },
    {
        if stateid.is_anonymous() || stateid.is_read_bypass() {
            return failure(Nfs4Status::BadStateid);
        }
        match self.get_state(stateid) {
            None => failure(Nfs4Status::BadStateid),
            Some(state) => {
                if stateid.seqid != 0 && stateid.seqid != state.seqid() {
                    if stateid.seqid < state.seqid() {
                        return failure(Nfs4Status::OldStateid);
                    }
                    return failure(Nfs4Status::BadStateid);
                }
                Ok(state)
            },
        }
    }

    /// `self` is `before` with the open under a state id changed to `state`, where there is one.
    pub open spec fn has_changed(
        &self,
        before: &OpenManager,
        stateid: Stateid4,
        state: OpenState,
        r: Option<Stateid4>,
    ) -> bool {
        let k = key12(stateid.other@);
        if before.states@.contains_key(k) {
            &&& self.has_replaced(before, k, state)
            &&& r is Some
            &&& r->Some_0.seqid == state.seqid
            &&& r->Some_0.other == before.states@[k].stateid.other
        } else {
            &&& self.states@ == before.states@
            &&& self.file_owner_state == before.file_owner_state
            &&& self.same_rest(before)
            &&& r is None
        }
    }

    /// Counts a change of an open and, where `confirm` says so, marks it as confirmed. Gives the
    /// state id with the new count.
    pub fn count_change(&mut self, stateid: &Stateid4, confirm: bool) -> (r: Option<Stateid4>)
        requires
            old(self).wf(),
        ensures
            final(self).wf(),
            final(self).has_changed(
                old(self),
                *stateid,
                (OpenState {
                    confirmed: old(self).states@[key12(stateid.other@)].confirmed || confirm,
                    ..old(self).states@[key12(stateid.other@)].counting()
                }),
                r,
            ),
    {
        let key: u128 = key_of12(&stateid.other);
        match self.states.remove(&key) {
            Some(mut state) => {
                let n: u32 = state.next_seqid();
                if confirm {
                    state.set_confirmed(true);
                }
                let r = Stateid4::new(n, state.stateid.other);
                let ghost t = state;
                self.states.insert(key, state);
                proof {
                    assert(self.states@ =~= old(self).states@.insert(key, t));
                    self.wf_survives(old(self), key, t);
                }
                Some(r)
            },
            None => {
                assert(self.states@ =~= old(self).states@);
                None
            },
        }
    }

    /// Marks an open as confirmed.
    pub fn confirm(&mut self, stateid: &Stateid4) -> (r: Option<Stateid4>)
        requires
            old(self).wf(),
        ensures
            final(self).wf(),
            final(self).has_changed(
                old(self),
                *stateid,
                (OpenState { confirmed: true, ..old(self).states@[key12(stateid.other@)] }),
                r,
            ),
    {
        let key: u128 = key_of12(&stateid.other);
        match self.states.remove(&key) {
            Some(mut state) => {
                state.set_confirmed(true);
                let r = Stateid4::new(state.seqid, state.stateid.other);
                let ghost t = state;
                self.states.insert(key, state);
                proof {
                    assert(self.states@ =~= old(self).states@.insert(key, t));
                    self.wf_survives(old(self), key, t);
                }
                Some(r)
            },
            None => {
                assert(self.states@ =~= old(self).states@);
                None
            },
        }
    }

    /// Reduces an open to the given modes, and gives the state id with the new count.
    pub fn downgrade(&mut self, stateid: &Stateid4, access: u32, deny: u32) -> (r: Option<Stateid4>)
        requires
            old(self).wf(),
        ensures
            final(self).wf(),
            final(self).has_changed(
                old(self),
                *stateid,
                old(self).states@[key12(stateid.other@)].downgraded(access, deny),
                r,
            ),
    {
        let key: u128 = key_of12(&stateid.other);
        match self.states.remove(&key) {
            Some(mut state) => {
                state.downgrade_access(access, deny);
                let r = Stateid4::new(state.seqid, state.stateid.other);
                let ghost t = state;
                self.states.insert(key, state);
                proof {
                    assert(self.states@ =~= old(self).states@.insert(key, t));
                    self.wf_survives(old(self), key, t);
                }
                Some(r)
            },
            None => {
                assert(self.states@ =~= old(self).states@);
                None
            },
        }
    }

    /// Ends an open, which is handed out.
    pub fn close(&mut self, stateid: &Stateid4) -> (r: Nfs4Result<OpenState>)
        requires
            old(self).wf(),
        ensures
            final(self).wf(),
            final(self).states@ == old(self).states@.remove(key12(stateid.other@)),
            final(self).same_rest(old(self)),
            if old(self).states@.contains_key(key12(stateid.other@)) {
                let s = old(self).states@[key12(stateid.other@)];
                &&& r == Ok::<OpenState, crate::error::Nfs4Error>(s)
                &&& final(self).file_owner_state@ == old(self).file_owner_state@.remove(
                    open_key(s.clientid, s.fileid, s.owner_val@),
                )
            } else {
                fails_with(r, Nfs4Status::BadStateid) && final(self).file_owner_state == old(
                    self,
                ).file_owner_state
            },
    {
        let key: u128 = key_of12(&stateid.other);
        match self.states.remove(&key) {
            None => {
                assert(self.states@ =~= old(self).states@);
                failure(Nfs4Status::BadStateid)
            },
            Some(state) => {
                self.file_opens.drop_one(state.fileid, key);
                self.client_opens.drop_one(state.clientid, key);
                let name = owner_name(state.clientid, state.owner_val.as_slice());
                self.file_owner_state.remove(state.fileid, name.as_slice());
                proof {
                    assert forall|o: (u64, Seq<u8>)| #[trigger]
                        self.file_owner_state@.contains_key(o) implies self.note_ok(o) by {
                        assert(old(self).note_ok(o));
                    }
                    indexed_remove(
                        old(self).states@,
                        old(self).file_opens,
                        self.file_opens,
                        Self::file(),
                        key,
                    );
                    indexed_remove(
                        old(self).states@,
                        old(self).client_opens,
                        self.client_opens,
                        Self::client(),
                        key,
                    );
                    self.ids_survive(old(self));
                }
                Ok(state)
            },
        }
    }

    proof fn ids_survive(&self, before: &OpenManager)
        requires
            before.wf(),
            self.same_rest(before),
            forall|j: u128| #[trigger]
                self.states@.contains_key(j) ==> before.states@.contains_key(j) && self.states@[j]
                    == before.states@[j],
        ensures
            forall|j: u128| #[trigger]
                self.states@.contains_key(j) ==> key12(self.states@[j].stateid.other@) == j
                    && !self.will_hand_out(self.states@[j].stateid.other@),
    {
        assert forall|j: u128| #[trigger] self.states@.contains_key(j) implies key12(
            self.states@[j].stateid.other@,
        ) == j && !self.will_hand_out(self.states@[j].stateid.other@) by {
            assert(before.states@.contains_key(j));
            if self.will_hand_out(self.states@[j].stateid.other@) {
                let n = choose|n: u32|
                    n >= self.next_stateid && self.states@[j].stateid.other@
                        == #[trigger] open_other(self.boot_time, n);
                assert(before.states@[j].stateid.other@ == open_other(before.boot_time, n));
            }
        }
    }

    /// The opens of a client, oldest first.
    pub fn get_client_opens(&self, clientid: Clientid4) -> (r: Vec<&OpenState>)
        requires
            self.wf(),
        ensures
            r@.len() == self.client_opens.of(clientid).len(),
            forall|i: int|
                0 <= i < r@.len() ==> *(#[trigger] r@[i]) == self.states@[self.client_opens.of(
                    clientid,
                )[i]],
    {
        let mut out: Vec<&OpenState> = Vec::new();
        if let Some(keys) = self.client_opens.get(clientid) {
            let mut i: usize = 0;
            while i < keys.len()
                invariant
                    self.wf(),
                    keys@ == self.client_opens.of(clientid),
                    i <= keys.len(),
                    out@.len() == i,
                    forall|j: int| 0 <= j < i ==> *(#[trigger] out@[j]) == self.states@[keys@[j]],
                decreases keys.len() - i,
            {
                let k: u128 = keys[i];
                assert(self.client_opens.of(clientid).contains(k));
                if let Some(state) = self.states.get(&k) {
                    out.push(state);
                }
                i = i + 1;
            }
        }
        out
    }

    /// Ends all opens of a client.
    pub fn close_all_for_client(&mut self, clientid: Clientid4)
        requires
            old(self).wf(),
        ensures
            final(self).wf(),
            forall|k: u128| #[trigger]
                final(self).states@.contains_key(k) <==> old(self).states@.contains_key(k) && old(
                    self,
                ).states@[k].clientid != clientid,
            forall|k: u128| #[trigger]
                final(self).states@.contains_key(k) ==> final(self).states@[k] == old(
                    self,
                ).states@[k],
            forall|o: (u64, Seq<u8>)| #[trigger]
                final(self).file_owner_state@.contains_key(o) <==> old(
                    self,
                ).file_owner_state@.contains_key(o) && final(self).states@.contains_key(
                    old(self).file_owner_state@[o],
                ),
            forall|o: (u64, Seq<u8>)| #[trigger]
                final(self).file_owner_state@.contains_key(o) ==> final(self).file_owner_state@[o]
                    == old(self).file_owner_state@[o],
            final(self).same_rest(old(self)),
    {
        let list = self.client_opens.drop_all(clientid);
        let ghost idx = self.client_opens;
        let mut i: usize = 0;
        assert(list@.take(0) =~= Seq::empty());
        while i < list.len()
            invariant
                old(self).wf(),
                list@ == old(self).client_opens.of(clientid),
                i <= list.len(),
                self.client_opens == idx,
                forall|o: (u64, Seq<u8>)| #[trigger]
                    self.file_owner_state@.contains_key(o) ==> old(
                        self,
                    ).file_owner_state@.contains_key(o) && self.file_owner_state@[o] == old(
                        self,
                    ).file_owner_state@[o] && self.note_ok(o),
                forall|o: (u64, Seq<u8>)| #[trigger]
                    old(self).file_owner_state@.contains_key(o) && old(self).states@[old(
                        self,
                    ).file_owner_state@[o]].clientid != clientid
                        ==> self.file_owner_state@.contains_key(o),
                self.same_rest(old(self)),
                indexed(self.states@, self.file_opens, Self::file()),
                forall|k: u128| #[trigger]
                    self.states@.contains_key(k) <==> old(self).states@.contains_key(k)
                        && !list@.take(i as int).contains(k),
                forall|k: u128| #[trigger]
                    self.states@.contains_key(k) ==> self.states@[k] == old(self).states@[k],
            decreases list.len() - i,
        {
            let k: u128 = list[i];
            proof {
                take_one_more(list@, i as int);
            }
            let ghost m = self.states@;
            let ghost files = self.file_opens;
            let ghost mid = *self;
            if let Some(state) = self.states.remove(&k) {
                self.file_opens.drop_one(state.fileid, k);
                let name = owner_name(state.clientid, state.owner_val.as_slice());
                self.file_owner_state.remove(state.fileid, name.as_slice());
                proof {
                    assert(list@.contains(k));
                    assert(state.clientid == clientid);
                    let gone = open_key(state.clientid, state.fileid, state.owner_val@);
                    assert forall|o: (u64, Seq<u8>)| #[trigger]
                        self.file_owner_state@.contains_key(o) implies self.note_ok(o) by {
                        assert(mid.note_ok(o));
                    }
                    assert forall|o: (u64, Seq<u8>)| #[trigger]
                        old(self).file_owner_state@.contains_key(o) && old(self).states@[old(
                            self,
                        ).file_owner_state@[o]].clientid
                            != clientid implies self.file_owner_state@.contains_key(o) by {
                        assert(old(self).note_ok(o));
                        let t = old(self).states@[old(self).file_owner_state@[o]];
                        if o == gone {
                            law_owners_are_told_apart(
                                state.clientid,
                                state.fileid,
                                state.owner_val@,
                                t.clientid,
                                t.fileid,
                                t.owner_val@,
                            );
                        }
                    }
                    indexed_remove(m, files, self.file_opens, Self::file(), k);
                }
            }
            i = i + 1;
        }
        proof {
            assert(list@.take(i as int) =~= list@);
            assert forall|o: (u64, Seq<u8>)| #[trigger]
                old(self).file_owner_state@.contains_key(o) && self.states@.contains_key(
                    old(self).file_owner_state@[o],
                ) implies self.file_owner_state@.contains_key(o) by {
                assert(old(self).note_ok(o));
            }
            assert forall|o: (u64, Seq<u8>)| #[trigger]
                self.file_owner_state@.contains_key(o) implies old(
                self,
            ).file_owner_state@.contains_key(o) && self.states@.contains_key(
                old(self).file_owner_state@[o],
            ) by {
                assert(self.note_ok(o));
            }
            indexed_drop_all(
                old(self).states@,
                self.states@,
                old(self).client_opens,
                self.client_opens,
                Self::client(),
                clientid,
            );
            self.ids_survive(old(self));
        }
    }

    /// Whether the open is among the opens.
    pub open spec fn holds_state(&self, s: OpenState) -> bool {
        exists|k: u128| #[trigger] self.states@.contains_key(k) && self.states@[k] == s
    }

    /// All opens, each once.
    pub fn export_opens(&self) -> (r: Vec<&OpenState>)
        ensures
            r@.len() == self.states@.dom().len(),
            forall|i: int| 0 <= i < r@.len() ==> self.holds_state(*(#[trigger] r@[i])),
            forall|k: u128| #[trigger]
                self.states@.contains_key(k) ==> exists|i: int|
                    0 <= i < r@.len() && self.states@[k] == *(#[trigger] r@[i]),
    {
        let keys = keys128(&self.states);
        let mut out: Vec<&OpenState> = Vec::new();
        let mut i: usize = 0;
        while i < keys.len()
            invariant
                i <= keys.len(),
                forall|k: u128| #[trigger] keys@.contains(k) <==> self.states@.contains_key(k),
                out@.len() == i,
                forall|j: int| 0 <= j < i ==> self.states@.contains_key(#[trigger] keys@[j]),
                forall|j: int| 0 <= j < i ==> *(#[trigger] out@[j]) == self.states@[keys@[j]],
            decreases keys.len() - i,
        {
            let k: u128 = keys[i];
            assert(keys@.contains(k));
            assert(self.states@.contains_key(keys@[i as int]));
            if let Some(state) = self.states.get(&k) {
                out.push(state);
            }
            i = i + 1;
        }
        assert forall|k: u128| #[trigger] self.states@.contains_key(k) implies exists|i: int|
            0 <= i < out@.len() && self.states@[k] == *(#[trigger] out@[i]) by {
            assert(keys@.contains(k));
            let j = choose|j: int| 0 <= j < keys@.len() && #[trigger] keys@[j] == k;
            assert(self.states@[k] == *out@[j]);
        }
        assert forall|i: int| 0 <= i < out@.len() implies self.holds_state(
            *(#[trigger] out@[i]),
        ) by {
            assert(self.states@.contains_key(keys@[i]));
        }
        out
    }

    /// Whether this is an id that has not been handed out yet.
    pub fn hands_out_later(&self, other: &[u8; 12]) -> (r: bool)
        ensures
            r == self.will_hand_out(other@),
    {
        let b = vstd::array::array_as_slice(other);
        let n: u32 = crate::bytes::get_le32(b, 4);
        let mut id: Vec<u8> = Vec::new();
        put_le32(&mut id, #[verifier::truncate] (self.boot_time as u32));
        put_le32(&mut id, n);
        put_le32(&mut id, 0);
        assert(id@ =~= open_other(self.boot_time, n));
        let same = crate::bytes::bytes_eq(id.as_slice(), b);
        proof {
            if self.will_hand_out(other@) {
                let m = choose|m: u32|
                    m >= self.next_stateid && other@ == #[trigger] open_other(self.boot_time, m);
                parts_of_open(self.boot_time, m);
            }
        }
        same && n >= self.next_stateid
    }

    /// Puts back an open from before the server was started anew. It counts as not confirmed
    /// until the client claims it. Its id must not be one that is still to be handed out.
    pub fn restore_persisted_state(
        &mut self,
        stateid: [u8; 12],
        clientid: Clientid4,
        fileid: Fileid4,
        path: String,
        access: u32,
        deny: u32,
        owner_val: Vec<u8>,
    ) -> (r: Nfs4Result<Stateid4>)
        requires
            old(self).wf(),
            !old(self).will_hand_out(stateid@),
        ensures
            final(self).wf(),
            final(self).same_rest(old(self)),
            if old(self).states@.contains_key(key12(stateid@)) {
                fails_with(r, Nfs4Status::BadStateid) && *final(self) == *old(self)
            } else {
                &&& r is Ok
                &&& r->Ok_0.seqid == 1
                &&& r->Ok_0.other == stateid
                &&& final(self).states@ == old(self).states@.insert(
                    key12(stateid@),
                    OpenState {
                        stateid: r->Ok_0,
                        clientid,
                        owner_val,
                        fileid,
                        path,
                        share_access: access,
                        share_deny: deny,
                        seqid: 1,
                        confirmed: false,
                    },
                )
                &&& final(self).file_owner_state@ == old(self).file_owner_state@.insert(
                    open_key(clientid, fileid, owner_val@),
                    key12(stateid@),
                )
            },
    {
        let key: u128 = key_of12(&stateid);
        if self.states.contains_key(&key) {
            return failure(Nfs4Status::BadStateid);
        }
        let sid = Stateid4::new(1, stateid);
        self.put(Ghost(*old(self)), sid, clientid, owner_val, fileid, path, access, deny);
        Ok(sid)
    }

    /// The open that is noted for a file and an owner.
    pub fn find_state(&self, clientid: Clientid4, fileid: Fileid4, owner_val: &[u8]) -> (r: Option<
        &OpenState,
    >)
        requires
            self.wf(),
        ensures
            r == match self.noted(clientid, fileid, owner_val@) {
                Some(k) => Some(&self.states@[k]),
                None => None,
            },
    {
        let name = owner_name(clientid, owner_val);
        match self.file_owner_state.get(fileid, name.as_slice()) {
            Some(k) => {
                assert(self.note_ok(open_key(clientid, fileid, owner_val@)));
                self.states.get(&k)
            },
            None => None,
        }
    }

    /// Whether an open is of a file and of what any client calls so.
    pub open spec fn is_of(&self, k: u128, fileid: Fileid4, owner_val: Seq<u8>) -> bool {
        &&& self.states@.contains_key(k)
        &&& self.states@[k].fileid == fileid
        &&& self.states@[k].owner_val@ == owner_val
    }

    /// Whether the `i`th open of a file is the last by what any client calls so.
    pub open spec fn is_newest(&self, i: int, fileid: Fileid4, owner_val: Seq<u8>) -> bool {
        let keys = self.file_opens.of(fileid);
        &&& 0 <= i < keys.len()
        &&& self.is_of(keys[i], fileid, owner_val)
        &&& forall|j: int|
            i < j < keys.len() ==> !self.is_of(#[trigger] keys[j], fileid, owner_val)
    }

    /// The newest open of a file by what a client calls so, whichever client it is.
    pub fn find_persisted_state(&self, fileid: Fileid4, owner_val: &[u8]) -> (r: Option<&OpenState>)
        requires
            self.wf(),
        ensures
            match r {
                Some(s) => exists|i: int| #[trigger]
                    self.is_newest(i, fileid, owner_val@) && self.states@[self.file_opens.of(
                        fileid,
                    )[i]] == *s,
                None => forall|k: u128| !#[trigger] self.is_of(k, fileid, owner_val@),
            },
    {
        if let Some(keys) = self.file_opens.get(fileid) {
            let mut i: usize = keys.len();
            while i > 0
                invariant
                    self.wf(),
                    keys@ == self.file_opens.of(fileid),
                    i <= keys.len(),
                    forall|j: int|
                        i <= j < keys.len() ==> !self.is_of(#[trigger] keys@[j], fileid, owner_val@),
                decreases i,
            {
                i = i - 1;
                let k: u128 = keys[i];
                assert(self.file_opens.of(fileid).contains(k));
                if let Some(state) = self.states.get(&k) {
                    if bytes_eq(state.owner_val.as_slice(), owner_val) {
                        assert(self.is_newest(i as int, fileid, owner_val@));
                        return Some(state);
                    }
                }
            }
        }
        assert forall|k: u128| !#[trigger] self.is_of(k, fileid, owner_val@) by {
            if self.is_of(k, fileid, owner_val@) {
                let keys = self.file_opens.of(fileid);
                assert(keys.contains(k));
                let j = choose|j: int| 0 <= j < keys.len() && keys[j] == k;
                assert(!self.is_of(keys[j], fileid, owner_val@));
            }
        }
        None
    }
}

// ---------------------------------------------------------------------------
// Laws
// ---------------------------------------------------------------------------

/// No two clients have a file open in ways that one of them denies to the other.
pub open spec fn shares_kept(m: Map<u128, OpenState>) -> bool {
    forall|k: u128, j: u128|
        #![trigger m[k], m[j]]
        m.contains_key(k) && m.contains_key(j) && m[k].fileid == m[j].fileid && m[k].clientid
            != m[j].clientid ==> !shares_clash(
            m[k].share_access,
            m[k].share_deny,
            m[j].share_access,
            m[j].share_deny,
        )
}

/// What one client denies to others is kept when a file is opened.
pub proof fn law_opening_keeps_shares(
    before: OpenManager,
    after: OpenManager,
    clientid: Clientid4,
    owner_val: Vec<u8>,
    fileid: Fileid4,
    path: String,
    access: u32,
    deny: u32,
    r: Nfs4Result<(Stateid4, bool)>,
)
    requires
        before.wf(),
        shares_kept(before.states@),
        after.has_opened(&before, clientid, owner_val, fileid, path, access, deny, r),
    ensures
        shares_kept(after.states@),
{
    let m = before.states@;
    let n = after.states@;
    let noted = before.noted(clientid, fileid, owner_val@);
    if let Some(k) = noted {
        let s = m[k];
        assert(before.note_ok(open_key(clientid, fileid, owner_val@)));
        law_owners_are_told_apart(
            clientid,
            fileid,
            owner_val@,
            s.clientid,
            s.fileid,
            s.owner_val@,
        );
    }
    if r is Ok {
        let key = if noted is Some {
            noted->Some_0
        } else {
            key12(r->Ok_0.0.other@)
        };
        assert forall|j: u128| #[trigger] n.contains_key(j) && j != key implies m.contains_key(j)
            && m[j] == n[j] by {
            if noted is None {
                assert(n.remove(key).contains_key(j));
                assert(n.dom().contains(j));
            }
        }
        assert forall|k: u128, j: u128|
            #![trigger n[k], n[j]]
            n.contains_key(k) && n.contains_key(j) && n[k].fileid == n[j].fileid && n[k].clientid
                != n[j].clientid implies !shares_clash(
            n[k].share_access,
            n[k].share_deny,
            n[j].share_access,
            n[j].share_deny,
        ) by {
            if k != key && j != key {
                assert(m[k] == n[k] && m[j] == n[j]);
            } else {
                let other = if k == key {
                    j
                } else {
                    k
                };
                if other != key {
                    assert(m[other] == n[other]);
                    if noted is Some {
                        let s = m[key];
                        let a = s.share_access | access;
                        let d = s.share_deny | deny;
                        assert(!shares_clash(
                            m[key].share_access,
                            m[key].share_deny,
                            m[other].share_access,
                            m[other].share_deny,
                        ));
                        assert(!before.denies(other, fileid, a, d, Some(clientid)) || (a
                            == s.share_access && d == s.share_deny));
                    } else {
                        assert(!before.denies(other, fileid, access, deny, Some(clientid)));
                    }
                }
            }
        }
    } else if noted is Some {
        assert(n =~= m);
    }
}

/// A client that opens a file which another has open under the same bytes gets an open of its own,
/// and that of the other stays as it is. The same client gets the open that it has.
pub proof fn law_clients_do_not_share_opens(
    before: OpenManager,
    after: OpenManager,
    clientid: Clientid4,
    owner_val: Vec<u8>,
    fileid: Fileid4,
    path: String,
    access: u32,
    deny: u32,
    r: Nfs4Result<(Stateid4, bool)>,
    k: u128,
)
    requires
        before.wf(),
        after.has_opened(&before, clientid, owner_val, fileid, path, access, deny, r),
        before.states@.contains_key(k),
        before.states@[k].clientid != clientid,
    ensures
        after.states@.contains_key(k),
        after.states@[k] == before.states@[k],
        r is Ok ==> key12(r->Ok_0.0.other@) != k,
{
    let noted = before.noted(clientid, fileid, owner_val@);
    if let Some(j) = noted {
        let s = before.states@[j];
        assert(before.note_ok(open_key(clientid, fileid, owner_val@)));
        law_owners_are_told_apart(
            clientid,
            fileid,
            owner_val@,
            s.clientid,
            s.fileid,
            s.owner_val@,
        );
    } else if r is Ok {
        let new = key12(r->Ok_0.0.other@);
        assert(after.states@.remove(new).contains_key(k));
    }
}

/// A mode that is part of another clashes with nothing that the other does not clash with.
proof fn part_of_mode(x: u32, y: u32, bit: u32)
    requires
        x & y == y,
        y & bit != 0,
    ensures
        x & bit != 0,
{
    assert(x & y == y && y & bit != 0 ==> x & bit != 0) by (bit_vector);
}

/// What one client denies to others is kept when an open is reduced to part of its modes.
pub proof fn law_reducing_keeps_shares(
    m: Map<u128, OpenState>,
    k: u128,
    access: u32,
    deny: u32,
)
    requires
        shares_kept(m),
        m.contains_key(k),
        m[k].share_access & access == access,
        m[k].share_deny & deny == deny,
    ensures
        shares_kept(m.insert(k, m[k].downgraded(access, deny))),
{
    let n = m.insert(k, m[k].downgraded(access, deny));
    assert forall|a: u128, b: u128|
        #![trigger n[a], n[b]]
        n.contains_key(a) && n.contains_key(b) && n[a].fileid == n[b].fileid && n[a].clientid
            != n[b].clientid implies !shares_clash(
        n[a].share_access,
        n[a].share_deny,
        n[b].share_access,
        n[b].share_deny,
    ) by {
        assert(!shares_clash(
            m[a].share_access,
            m[a].share_deny,
            m[b].share_access,
            m[b].share_deny,
        ));
        let s = m[k];
        if access & SHARE_READ != 0 {
            part_of_mode(s.share_access, access, SHARE_READ);
        }
        if access & SHARE_WRITE != 0 {
            part_of_mode(s.share_access, access, SHARE_WRITE);
        }
        if deny & SHARE_READ != 0 {
            part_of_mode(s.share_deny, deny, SHARE_READ);
        }
        if deny & SHARE_WRITE != 0 {
            part_of_mode(s.share_deny, deny, SHARE_WRITE);
        }
    }
}

/// A state id that was just handed out for an open is accepted, and after the next change it is
/// told to be old.
pub proof fn law_stateid_gets_old(before: OpenManager, after: OpenManager, sid: Stateid4, r: Option<
    Stateid4,
>)
    requires
        before.wf(),
        before.named(sid) is Some,
        before.fault(sid) is None,
        sid.seqid != 0,
        before.states@[key12(sid.other@)].seqid < u32::MAX,
        after.has_changed(
            &before,
            sid,
            before.states@[key12(sid.other@)].counting(),
            r,
        ),
    ensures
        after.fault(sid) == Some(Nfs4Status::OldStateid),
        r is Some,
        !r->Some_0.special() ==> after.fault(r->Some_0) is None,
{
    let k = key12(sid.other@);
    assert(before.states@[k].seqid.wrapping_add(1) == before.states@[k].seqid + 1);
    key12_injective(before.states@[k].stateid.other@, sid.other@);
}

} // verus!
