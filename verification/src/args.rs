//! What the operations are asked with.

use crate::bytes::{be32_at, need, pad_len, Reader, XdrError};
use crate::types::{ClientOwner4, Clientid4, Fattr4, Nfstime4, Sessionid4, Stateid4, Verifier4};
use crate::xdr::{after, rest, Decode};
use vstd::prelude::*;

verus! {

broadcast use {crate::bytes::skip_skip, crate::bytes::skip_nothing};

// ---------------------------------------------------------------------------
// Lists
// ---------------------------------------------------------------------------

/// A count and as many values.
#[derive(Debug)]
pub struct List<T> {
    pub items: Vec<T>,
}

/// The bytes up to the end of the first `count` values that stand behind `start` bytes.
pub open spec fn items_len<T: Decode>(s: Seq<u8>, start: nat, count: nat) -> Result<nat, XdrError>
    decreases count,
{
    if count == 0 {
        Ok(start)
    } else {
        after::<T>(items_len::<T>(s, start, (count - 1) as nat), s)
    }
}

/// Where a value of a list cannot be read, the list cannot.
proof fn items_fail<T: Decode>(s: Seq<u8>, start: nat, i: nat, count: nat)
    requires
        i <= count,
        items_len::<T>(s, start, i) is Err,
    ensures
        items_len::<T>(s, start, count) == items_len::<T>(s, start, i),
    decreases count,
{
    if i < count {
        items_fail::<T>(s, start, i, (count - 1) as nat);
    }
}

impl<T: Decode> Decode for List<T> {
    open spec fn decoded_len(s: Seq<u8>) -> Result<nat, XdrError> {
        match need(s, 4) {
            Err(e) => Err(e),
            Ok(n) => items_len::<T>(s, n, be32_at(s) as nat),
        }
    }

    open spec fn decodes_to(&self, s: Seq<u8>) -> bool {
        &&& self.items@.len() == be32_at(s)
        &&& forall|i: int|
            0 <= i < self.items@.len() ==> (#[trigger] self.items@[i]).decodes_to(
                rest(items_len::<T>(s, 4, i as nat), s),
            )
    }

    fn decode(src: &mut Reader<'_>) -> (r: Result<Self, XdrError>) {
        let ghost s = src@;
        let count: u32 = src.read_u32()?;
        let mut items: Vec<T> = Vec::new();
        let mut i: u32 = 0;
        while i < count
            invariant
                s == old(src)@,
                s.len() >= 4,
                count == be32_at(s),
                i <= count,
                items@.len() == i,
                items_len::<T>(s, 4, i as nat) matches Ok(n) && n <= s.len() && src@ == s.skip(
                    n as int,
                ),
                forall|j: int|
                    0 <= j < i ==> (#[trigger] items@[j]).decodes_to(
                        rest(items_len::<T>(s, 4, j as nat), s),
                    ),
            decreases count - i,
        {
            match T::decode(src) {
                Ok(v) => {
                    items.push(v);
                },
                Err(e) => {
                    proof {
                        items_fail::<T>(s, 4, (i + 1) as nat, count as nat);
                    }
                    return Err(e);
                },
            }
            i = i + 1;
        }
        Ok(List { items })
    }
}

// ---------------------------------------------------------------------------
// Clients and sessions
// ---------------------------------------------------------------------------

/// What names a slot.
#[derive(Debug)]
pub struct SequenceArgs {
    pub sessionid: Sessionid4,
    pub sequenceid: u32,
    pub slotid: u32,
    pub highest_slotid: u32,
    pub cachethis: u32,
}

impl Decode for SequenceArgs {
    open spec fn decoded_len(s: Seq<u8>) -> Result<nat, XdrError> {
        let n = Sessionid4::decoded_len(s);
        let n = after::<u32>(n, s);
        let n = after::<u32>(n, s);
        let n = after::<u32>(n, s);
        let n = after::<u32>(n, s);
        n
    }

    open spec fn decodes_to(&self, s: Seq<u8>) -> bool {
        let n1 = Sessionid4::decoded_len(s);
        let n2 = after::<u32>(n1, s);
        let n3 = after::<u32>(n2, s);
        let n4 = after::<u32>(n3, s);
        &&& self.sessionid.decodes_to(s)
        &&& self.sequenceid.decodes_to(rest(n1, s))
        &&& self.slotid.decodes_to(rest(n2, s))
        &&& self.highest_slotid.decodes_to(rest(n3, s))
        &&& self.cachethis.decodes_to(rest(n4, s))
    }

    fn decode(src: &mut Reader<'_>) -> (r: Result<Self, XdrError>) {
        let sessionid: Sessionid4 = Sessionid4::decode(src)?;
        let sequenceid: u32 = u32::decode(src)?;
        let slotid: u32 = u32::decode(src)?;
        let highest_slotid: u32 = u32::decode(src)?;
        let cachethis: u32 = u32::decode(src)?;
        Ok(SequenceArgs { sessionid, sequenceid, slotid, highest_slotid, cachethis })
    }
}

/// What a client says of its making.
#[derive(Debug)]
pub struct ImplId {
    pub domain: Vec<u8>,
    pub name: Vec<u8>,
    pub date: Nfstime4,
}

impl Decode for ImplId {
    open spec fn decoded_len(s: Seq<u8>) -> Result<nat, XdrError> {
        let n = Vec::<u8>::decoded_len(s);
        let n = after::<Vec<u8>>(n, s);
        let n = after::<Nfstime4>(n, s);
        n
    }

    open spec fn decodes_to(&self, s: Seq<u8>) -> bool {
        let n1 = Vec::<u8>::decoded_len(s);
        let n2 = after::<Vec<u8>>(n1, s);
        &&& self.domain.decodes_to(s)
        &&& self.name.decodes_to(rest(n1, s))
        &&& self.date.decodes_to(rest(n2, s))
    }

    fn decode(src: &mut Reader<'_>) -> (r: Result<Self, XdrError>) {
        let domain: Vec<u8> = Vec::<u8>::decode(src)?;
        let name: Vec<u8> = Vec::<u8>::decode(src)?;
        let date: Nfstime4 = Nfstime4::decode(src)?;
        Ok(ImplId { domain, name, date })
    }
}

/// Who a client is.
#[derive(Debug)]
pub struct ExchangeIdArgs {
    pub client_owner: ClientOwner4,
    pub flags: u32,
    pub state_protect: u32,
    pub impls: List<ImplId>,
}

impl Decode for ExchangeIdArgs {
    open spec fn decoded_len(s: Seq<u8>) -> Result<nat, XdrError> {
        let n = ClientOwner4::decoded_len(s);
        let n = after::<u32>(n, s);
        let n = after::<u32>(n, s);
        let n = after::<List<ImplId>>(n, s);
        n
    }

    open spec fn decodes_to(&self, s: Seq<u8>) -> bool {
        let n1 = ClientOwner4::decoded_len(s);
        let n2 = after::<u32>(n1, s);
        let n3 = after::<u32>(n2, s);
        &&& self.client_owner.decodes_to(s)
        &&& self.flags.decodes_to(rest(n1, s))
        &&& self.state_protect.decodes_to(rest(n2, s))
        &&& self.impls.decodes_to(rest(n3, s))
    }

    fn decode(src: &mut Reader<'_>) -> (r: Result<Self, XdrError>) {
        let client_owner: ClientOwner4 = ClientOwner4::decode(src)?;
        let flags: u32 = u32::decode(src)?;
        let state_protect: u32 = u32::decode(src)?;
        let impls: List<ImplId> = List::<ImplId>::decode(src)?;
        Ok(ExchangeIdArgs { client_owner, flags, state_protect, impls })
    }
}

/// What a channel is to hold.
#[derive(Debug)]
pub struct ChannelAttrs {
    pub headerpadsize: u32,
    pub maxrequestsize: u32,
    pub maxresponsesize: u32,
    pub maxresponsesize_cached: u32,
    pub maxoperations: u32,
    pub maxrequests: u32,
    pub rdma: List<u32>,
}

impl Decode for ChannelAttrs {
    open spec fn decoded_len(s: Seq<u8>) -> Result<nat, XdrError> {
        let n = u32::decoded_len(s);
        let n = after::<u32>(n, s);
        let n = after::<u32>(n, s);
        let n = after::<u32>(n, s);
        let n = after::<u32>(n, s);
        let n = after::<u32>(n, s);
        let n = after::<List<u32>>(n, s);
        n
    }

    open spec fn decodes_to(&self, s: Seq<u8>) -> bool {
        let n1 = u32::decoded_len(s);
        let n2 = after::<u32>(n1, s);
        let n3 = after::<u32>(n2, s);
        let n4 = after::<u32>(n3, s);
        let n5 = after::<u32>(n4, s);
        let n6 = after::<u32>(n5, s);
        &&& self.headerpadsize.decodes_to(s)
        &&& self.maxrequestsize.decodes_to(rest(n1, s))
        &&& self.maxresponsesize.decodes_to(rest(n2, s))
        &&& self.maxresponsesize_cached.decodes_to(rest(n3, s))
        &&& self.maxoperations.decodes_to(rest(n4, s))
        &&& self.maxrequests.decodes_to(rest(n5, s))
        &&& self.rdma.decodes_to(rest(n6, s))
    }

    fn decode(src: &mut Reader<'_>) -> (r: Result<Self, XdrError>) {
        let headerpadsize: u32 = u32::decode(src)?;
        let maxrequestsize: u32 = u32::decode(src)?;
        let maxresponsesize: u32 = u32::decode(src)?;
        let maxresponsesize_cached: u32 = u32::decode(src)?;
        let maxoperations: u32 = u32::decode(src)?;
        let maxrequests: u32 = u32::decode(src)?;
        let rdma: List<u32> = List::<u32>::decode(src)?;
        Ok(
            ChannelAttrs {
                headerpadsize,
                maxrequestsize,
                maxresponsesize,
                maxresponsesize_cached,
                maxoperations,
                maxrequests,
                rdma,
            },
        )
    }
}

/// Who callbacks come from.
#[derive(Debug)]
pub struct AuthSysParms {
    pub stamp: u32,
    pub machine: Vec<u8>,
    pub uid: u32,
    pub gid: u32,
    pub gids: List<u32>,
}

impl Decode for AuthSysParms {
    open spec fn decoded_len(s: Seq<u8>) -> Result<nat, XdrError> {
        let n = u32::decoded_len(s);
        let n = after::<Vec<u8>>(n, s);
        let n = after::<u32>(n, s);
        let n = after::<u32>(n, s);
        let n = after::<List<u32>>(n, s);
        n
    }

    open spec fn decodes_to(&self, s: Seq<u8>) -> bool {
        let n1 = u32::decoded_len(s);
        let n2 = after::<Vec<u8>>(n1, s);
        let n3 = after::<u32>(n2, s);
        let n4 = after::<u32>(n3, s);
        &&& self.stamp.decodes_to(s)
        &&& self.machine.decodes_to(rest(n1, s))
        &&& self.uid.decodes_to(rest(n2, s))
        &&& self.gid.decodes_to(rest(n3, s))
        &&& self.gids.decodes_to(rest(n4, s))
    }

    fn decode(src: &mut Reader<'_>) -> (r: Result<Self, XdrError>) {
        let stamp: u32 = u32::decode(src)?;
        let machine: Vec<u8> = Vec::<u8>::decode(src)?;
        let uid: u32 = u32::decode(src)?;
        let gid: u32 = u32::decode(src)?;
        let gids: List<u32> = List::<u32>::decode(src)?;
        Ok(AuthSysParms { stamp, machine, uid, gid, gids })
    }
}

/// How callbacks are to be authenticated: a flavor, with details for one of them.
#[derive(Debug)]
pub struct SecParms {
    pub tag: u32,
    pub sys: Option<AuthSysParms>,
}

impl Decode for SecParms {
    open spec fn decoded_len(s: Seq<u8>) -> Result<nat, XdrError> {
        match need(s, 4) {
            Err(e) => Err(e),
            Ok(n) => if be32_at(s) == 1 {
                after::<AuthSysParms>(Ok(n), s)
            } else {
                Ok(n)
            },
        }
    }

    open spec fn decodes_to(&self, s: Seq<u8>) -> bool {
        &&& self.tag == be32_at(s)
        &&& if be32_at(s) == 1 {
            self.sys is Some && self.sys->Some_0.decodes_to(s.skip(4))
        } else {
            self.sys is None
        }
    }

    fn decode(src: &mut Reader<'_>) -> (r: Result<Self, XdrError>) {
        let tag: u32 = src.read_u32()?;
        if tag == 1 {
            let v = AuthSysParms::decode(src)?;
            Ok(SecParms { tag, sys: Some(v) })
        } else {
            Ok(SecParms { tag, sys: None })
        }
    }
}

/// Who asks for a session.
#[derive(Debug)]
pub struct CreateSessionHead {
    pub clientid: Clientid4,
    pub seqid: u32,
    pub flags: u32,
}

impl Decode for CreateSessionHead {
    open spec fn decoded_len(s: Seq<u8>) -> Result<nat, XdrError> {
        let n = Clientid4::decoded_len(s);
        let n = after::<u32>(n, s);
        let n = after::<u32>(n, s);
        n
    }

    open spec fn decodes_to(&self, s: Seq<u8>) -> bool {
        let n1 = Clientid4::decoded_len(s);
        let n2 = after::<u32>(n1, s);
        &&& self.clientid.decodes_to(s)
        &&& self.seqid.decodes_to(rest(n1, s))
        &&& self.flags.decodes_to(rest(n2, s))
    }

    fn decode(src: &mut Reader<'_>) -> (r: Result<Self, XdrError>) {
        let clientid: Clientid4 = Clientid4::decode(src)?;
        let seqid: u32 = u32::decode(src)?;
        let flags: u32 = u32::decode(src)?;
        Ok(CreateSessionHead { clientid, seqid, flags })
    }
}

/// How a client is to be called back.
#[derive(Debug)]
pub struct CallbackParms {
    pub cb_program: u32,
    pub sec: List<SecParms>,
}

impl Decode for CallbackParms {
    open spec fn decoded_len(s: Seq<u8>) -> Result<nat, XdrError> {
        let n = u32::decoded_len(s);
        let n = after::<List<SecParms>>(n, s);
        n
    }

    open spec fn decodes_to(&self, s: Seq<u8>) -> bool {
        let n1 = u32::decoded_len(s);
        &&& self.cb_program.decodes_to(s)
        &&& self.sec.decodes_to(rest(n1, s))
    }

    fn decode(src: &mut Reader<'_>) -> (r: Result<Self, XdrError>) {
        let cb_program: u32 = u32::decode(src)?;
        let sec: List<SecParms> = List::<SecParms>::decode(src)?;
        Ok(CallbackParms { cb_program, sec })
    }
}

/// What a session is asked for with.
#[derive(Debug)]
pub struct CreateSessionArgs {
    pub head: CreateSessionHead,
    pub fore: ChannelAttrs,
    pub back: ChannelAttrs,
    pub callback: CallbackParms,
}

impl Decode for CreateSessionArgs {
    open spec fn decoded_len(s: Seq<u8>) -> Result<nat, XdrError> {
        let n = CreateSessionHead::decoded_len(s);
        let n = after::<ChannelAttrs>(n, s);
        let n = after::<ChannelAttrs>(n, s);
        let n = after::<CallbackParms>(n, s);
        n
    }

    open spec fn decodes_to(&self, s: Seq<u8>) -> bool {
        let n1 = CreateSessionHead::decoded_len(s);
        let n2 = after::<ChannelAttrs>(n1, s);
        let n3 = after::<ChannelAttrs>(n2, s);
        &&& self.head.decodes_to(s)
        &&& self.fore.decodes_to(rest(n1, s))
        &&& self.back.decodes_to(rest(n2, s))
        &&& self.callback.decodes_to(rest(n3, s))
    }

    fn decode(src: &mut Reader<'_>) -> (r: Result<Self, XdrError>) {
        let head: CreateSessionHead = CreateSessionHead::decode(src)?;
        let fore: ChannelAttrs = ChannelAttrs::decode(src)?;
        let back: ChannelAttrs = ChannelAttrs::decode(src)?;
        let callback: CallbackParms = CallbackParms::decode(src)?;
        Ok(CreateSessionArgs { head, fore, back, callback })
    }
}

/// Who a client is, and how it is called back.
#[derive(Debug)]
pub struct SetclientidArgs {
    pub verifier: Verifier4,
    pub client_id: Vec<u8>,
    pub cb_program: u32,
    pub netid: Vec<u8>,
    pub addr: Vec<u8>,
    pub callback_ident: u32,
}

impl Decode for SetclientidArgs {
    open spec fn decoded_len(s: Seq<u8>) -> Result<nat, XdrError> {
        let n = Verifier4::decoded_len(s);
        let n = after::<Vec<u8>>(n, s);
        let n = after::<u32>(n, s);
        let n = after::<Vec<u8>>(n, s);
        let n = after::<Vec<u8>>(n, s);
        let n = after::<u32>(n, s);
        n
    }

    open spec fn decodes_to(&self, s: Seq<u8>) -> bool {
        let n1 = Verifier4::decoded_len(s);
        let n2 = after::<Vec<u8>>(n1, s);
        let n3 = after::<u32>(n2, s);
        let n4 = after::<Vec<u8>>(n3, s);
        let n5 = after::<Vec<u8>>(n4, s);
        &&& self.verifier.decodes_to(s)
        &&& self.client_id.decodes_to(rest(n1, s))
        &&& self.cb_program.decodes_to(rest(n2, s))
        &&& self.netid.decodes_to(rest(n3, s))
        &&& self.addr.decodes_to(rest(n4, s))
        &&& self.callback_ident.decodes_to(rest(n5, s))
    }

    fn decode(src: &mut Reader<'_>) -> (r: Result<Self, XdrError>) {
        let verifier: Verifier4 = Verifier4::decode(src)?;
        let client_id: Vec<u8> = Vec::<u8>::decode(src)?;
        let cb_program: u32 = u32::decode(src)?;
        let netid: Vec<u8> = Vec::<u8>::decode(src)?;
        let addr: Vec<u8> = Vec::<u8>::decode(src)?;
        let callback_ident: u32 = u32::decode(src)?;
        Ok(SetclientidArgs { verifier, client_id, cb_program, netid, addr, callback_ident })
    }
}

/// Which client is confirmed.
#[derive(Debug)]
pub struct SetclientidConfirmArgs {
    pub clientid: Clientid4,
    pub verifier: Verifier4,
}

impl Decode for SetclientidConfirmArgs {
    open spec fn decoded_len(s: Seq<u8>) -> Result<nat, XdrError> {
        let n = Clientid4::decoded_len(s);
        let n = after::<Verifier4>(n, s);
        n
    }

    open spec fn decodes_to(&self, s: Seq<u8>) -> bool {
        let n1 = Clientid4::decoded_len(s);
        &&& self.clientid.decodes_to(s)
        &&& self.verifier.decodes_to(rest(n1, s))
    }

    fn decode(src: &mut Reader<'_>) -> (r: Result<Self, XdrError>) {
        let clientid: Clientid4 = Clientid4::decode(src)?;
        let verifier: Verifier4 = Verifier4::decode(src)?;
        Ok(SetclientidConfirmArgs { clientid, verifier })
    }
}

// ---------------------------------------------------------------------------
// Opens and locks
// ---------------------------------------------------------------------------

/// What an open is asked for with, up to how the file is to be made.
#[derive(Debug)]
pub struct OpenHead {
    pub seqid: u32,
    pub share_access: u32,
    pub share_deny: u32,
    pub clientid: Clientid4,
    pub owner: Vec<u8>,
    pub opentype: u32,
}

impl Decode for OpenHead {
    open spec fn decoded_len(s: Seq<u8>) -> Result<nat, XdrError> {
        let n = u32::decoded_len(s);
        let n = after::<u32>(n, s);
        let n = after::<u32>(n, s);
        let n = after::<Clientid4>(n, s);
        let n = after::<Vec<u8>>(n, s);
        let n = after::<u32>(n, s);
        n
    }

    open spec fn decodes_to(&self, s: Seq<u8>) -> bool {
        let n1 = u32::decoded_len(s);
        let n2 = after::<u32>(n1, s);
        let n3 = after::<u32>(n2, s);
        let n4 = after::<Clientid4>(n3, s);
        let n5 = after::<Vec<u8>>(n4, s);
        &&& self.seqid.decodes_to(s)
        &&& self.share_access.decodes_to(rest(n1, s))
        &&& self.share_deny.decodes_to(rest(n2, s))
        &&& self.clientid.decodes_to(rest(n3, s))
        &&& self.owner.decodes_to(rest(n4, s))
        &&& self.opentype.decodes_to(rest(n5, s))
    }

    fn decode(src: &mut Reader<'_>) -> (r: Result<Self, XdrError>) {
        let seqid: u32 = u32::decode(src)?;
        let share_access: u32 = u32::decode(src)?;
        let share_deny: u32 = u32::decode(src)?;
        let clientid: Clientid4 = Clientid4::decode(src)?;
        let owner: Vec<u8> = Vec::<u8>::decode(src)?;
        let opentype: u32 = u32::decode(src)?;
        Ok(OpenHead { seqid, share_access, share_deny, clientid, owner, opentype })
    }
}

/// Which open is confirmed.
#[derive(Debug)]
pub struct OpenConfirmArgs {
    pub stateid: Stateid4,
    pub seqid: u32,
}

impl Decode for OpenConfirmArgs {
    open spec fn decoded_len(s: Seq<u8>) -> Result<nat, XdrError> {
        let n = Stateid4::decoded_len(s);
        let n = after::<u32>(n, s);
        n
    }

    open spec fn decodes_to(&self, s: Seq<u8>) -> bool {
        let n1 = Stateid4::decoded_len(s);
        &&& self.stateid.decodes_to(s)
        &&& self.seqid.decodes_to(rest(n1, s))
    }

    fn decode(src: &mut Reader<'_>) -> (r: Result<Self, XdrError>) {
        let stateid: Stateid4 = Stateid4::decode(src)?;
        let seqid: u32 = u32::decode(src)?;
        Ok(OpenConfirmArgs { stateid, seqid })
    }
}

/// Which open is reduced, and to what.
#[derive(Debug)]
pub struct OpenDowngradeArgs {
    pub stateid: Stateid4,
    pub seqid: u32,
    pub access: u32,
    pub deny: u32,
}

impl Decode for OpenDowngradeArgs {
    open spec fn decoded_len(s: Seq<u8>) -> Result<nat, XdrError> {
        let n = Stateid4::decoded_len(s);
        let n = after::<u32>(n, s);
        let n = after::<u32>(n, s);
        let n = after::<u32>(n, s);
        n
    }

    open spec fn decodes_to(&self, s: Seq<u8>) -> bool {
        let n1 = Stateid4::decoded_len(s);
        let n2 = after::<u32>(n1, s);
        let n3 = after::<u32>(n2, s);
        &&& self.stateid.decodes_to(s)
        &&& self.seqid.decodes_to(rest(n1, s))
        &&& self.access.decodes_to(rest(n2, s))
        &&& self.deny.decodes_to(rest(n3, s))
    }

    fn decode(src: &mut Reader<'_>) -> (r: Result<Self, XdrError>) {
        let stateid: Stateid4 = Stateid4::decode(src)?;
        let seqid: u32 = u32::decode(src)?;
        let access: u32 = u32::decode(src)?;
        let deny: u32 = u32::decode(src)?;
        Ok(OpenDowngradeArgs { stateid, seqid, access, deny })
    }
}

/// Which open ends.
#[derive(Debug)]
pub struct CloseArgs {
    pub seqid: u32,
    pub stateid: Stateid4,
}

impl Decode for CloseArgs {
    open spec fn decoded_len(s: Seq<u8>) -> Result<nat, XdrError> {
        let n = u32::decoded_len(s);
        let n = after::<Stateid4>(n, s);
        n
    }

    open spec fn decodes_to(&self, s: Seq<u8>) -> bool {
        let n1 = u32::decoded_len(s);
        &&& self.seqid.decodes_to(s)
        &&& self.stateid.decodes_to(rest(n1, s))
    }

    fn decode(src: &mut Reader<'_>) -> (r: Result<Self, XdrError>) {
        let seqid: u32 = u32::decode(src)?;
        let stateid: Stateid4 = Stateid4::decode(src)?;
        Ok(CloseArgs { seqid, stateid })
    }
}

/// What a lock is asked for with, up to who asks.
#[derive(Debug)]
pub struct LockHead {
    pub locktype: u32,
    pub reclaim: u32,
    pub offset: u64,
    pub length: u64,
    pub locker_type: u32,
}

impl Decode for LockHead {
    open spec fn decoded_len(s: Seq<u8>) -> Result<nat, XdrError> {
        let n = u32::decoded_len(s);
        let n = after::<u32>(n, s);
        let n = after::<u64>(n, s);
        let n = after::<u64>(n, s);
        let n = after::<u32>(n, s);
        n
    }

    open spec fn decodes_to(&self, s: Seq<u8>) -> bool {
        let n1 = u32::decoded_len(s);
        let n2 = after::<u32>(n1, s);
        let n3 = after::<u64>(n2, s);
        let n4 = after::<u64>(n3, s);
        &&& self.locktype.decodes_to(s)
        &&& self.reclaim.decodes_to(rest(n1, s))
        &&& self.offset.decodes_to(rest(n2, s))
        &&& self.length.decodes_to(rest(n3, s))
        &&& self.locker_type.decodes_to(rest(n4, s))
    }

    fn decode(src: &mut Reader<'_>) -> (r: Result<Self, XdrError>) {
        let locktype: u32 = u32::decode(src)?;
        let reclaim: u32 = u32::decode(src)?;
        let offset: u64 = u64::decode(src)?;
        let length: u64 = u64::decode(src)?;
        let locker_type: u32 = u32::decode(src)?;
        Ok(LockHead { locktype, reclaim, offset, length, locker_type })
    }
}

/// An owner that has no lock yet.
#[derive(Debug)]
pub struct NewLocker {
    pub open_seqid: u32,
    pub open_stateid: Stateid4,
    pub lock_seqid: u32,
    pub clientid: Clientid4,
    pub owner: Vec<u8>,
}

impl Decode for NewLocker {
    open spec fn decoded_len(s: Seq<u8>) -> Result<nat, XdrError> {
        let n = u32::decoded_len(s);
        let n = after::<Stateid4>(n, s);
        let n = after::<u32>(n, s);
        let n = after::<Clientid4>(n, s);
        let n = after::<Vec<u8>>(n, s);
        n
    }

    open spec fn decodes_to(&self, s: Seq<u8>) -> bool {
        let n1 = u32::decoded_len(s);
        let n2 = after::<Stateid4>(n1, s);
        let n3 = after::<u32>(n2, s);
        let n4 = after::<Clientid4>(n3, s);
        &&& self.open_seqid.decodes_to(s)
        &&& self.open_stateid.decodes_to(rest(n1, s))
        &&& self.lock_seqid.decodes_to(rest(n2, s))
        &&& self.clientid.decodes_to(rest(n3, s))
        &&& self.owner.decodes_to(rest(n4, s))
    }

    fn decode(src: &mut Reader<'_>) -> (r: Result<Self, XdrError>) {
        let open_seqid: u32 = u32::decode(src)?;
        let open_stateid: Stateid4 = Stateid4::decode(src)?;
        let lock_seqid: u32 = u32::decode(src)?;
        let clientid: Clientid4 = Clientid4::decode(src)?;
        let owner: Vec<u8> = Vec::<u8>::decode(src)?;
        Ok(NewLocker { open_seqid, open_stateid, lock_seqid, clientid, owner })
    }
}

/// An owner that has a lock.
#[derive(Debug)]
pub struct OldLocker {
    pub lock_stateid: Stateid4,
    pub lock_seqid: u32,
}

impl Decode for OldLocker {
    open spec fn decoded_len(s: Seq<u8>) -> Result<nat, XdrError> {
        let n = Stateid4::decoded_len(s);
        let n = after::<u32>(n, s);
        n
    }

    open spec fn decodes_to(&self, s: Seq<u8>) -> bool {
        let n1 = Stateid4::decoded_len(s);
        &&& self.lock_stateid.decodes_to(s)
        &&& self.lock_seqid.decodes_to(rest(n1, s))
    }

    fn decode(src: &mut Reader<'_>) -> (r: Result<Self, XdrError>) {
        let lock_stateid: Stateid4 = Stateid4::decode(src)?;
        let lock_seqid: u32 = u32::decode(src)?;
        Ok(OldLocker { lock_stateid, lock_seqid })
    }
}

/// Which lock is tried.
#[derive(Debug)]
pub struct LocktArgs {
    pub locktype: u32,
    pub offset: u64,
    pub length: u64,
    pub clientid: Clientid4,
    pub owner: Vec<u8>,
}

impl Decode for LocktArgs {
    open spec fn decoded_len(s: Seq<u8>) -> Result<nat, XdrError> {
        let n = u32::decoded_len(s);
        let n = after::<u64>(n, s);
        let n = after::<u64>(n, s);
        let n = after::<Clientid4>(n, s);
        let n = after::<Vec<u8>>(n, s);
        n
    }

    open spec fn decodes_to(&self, s: Seq<u8>) -> bool {
        let n1 = u32::decoded_len(s);
        let n2 = after::<u64>(n1, s);
        let n3 = after::<u64>(n2, s);
        let n4 = after::<Clientid4>(n3, s);
        &&& self.locktype.decodes_to(s)
        &&& self.offset.decodes_to(rest(n1, s))
        &&& self.length.decodes_to(rest(n2, s))
        &&& self.clientid.decodes_to(rest(n3, s))
        &&& self.owner.decodes_to(rest(n4, s))
    }

    fn decode(src: &mut Reader<'_>) -> (r: Result<Self, XdrError>) {
        let locktype: u32 = u32::decode(src)?;
        let offset: u64 = u64::decode(src)?;
        let length: u64 = u64::decode(src)?;
        let clientid: Clientid4 = Clientid4::decode(src)?;
        let owner: Vec<u8> = Vec::<u8>::decode(src)?;
        Ok(LocktArgs { locktype, offset, length, clientid, owner })
    }
}

/// Which range is given back.
#[derive(Debug)]
pub struct LockuArgs {
    pub locktype: u32,
    pub seqid: u32,
    pub stateid: Stateid4,
    pub offset: u64,
    pub length: u64,
}

impl Decode for LockuArgs {
    open spec fn decoded_len(s: Seq<u8>) -> Result<nat, XdrError> {
        let n = u32::decoded_len(s);
        let n = after::<u32>(n, s);
        let n = after::<Stateid4>(n, s);
        let n = after::<u64>(n, s);
        let n = after::<u64>(n, s);
        n
    }

    open spec fn decodes_to(&self, s: Seq<u8>) -> bool {
        let n1 = u32::decoded_len(s);
        let n2 = after::<u32>(n1, s);
        let n3 = after::<Stateid4>(n2, s);
        let n4 = after::<u64>(n3, s);
        &&& self.locktype.decodes_to(s)
        &&& self.seqid.decodes_to(rest(n1, s))
        &&& self.stateid.decodes_to(rest(n2, s))
        &&& self.offset.decodes_to(rest(n3, s))
        &&& self.length.decodes_to(rest(n4, s))
    }

    fn decode(src: &mut Reader<'_>) -> (r: Result<Self, XdrError>) {
        let locktype: u32 = u32::decode(src)?;
        let seqid: u32 = u32::decode(src)?;
        let stateid: Stateid4 = Stateid4::decode(src)?;
        let offset: u64 = u64::decode(src)?;
        let length: u64 = u64::decode(src)?;
        Ok(LockuArgs { locktype, seqid, stateid, offset, length })
    }
}

/// Which owner gives its locks back.
#[derive(Debug)]
pub struct ReleaseLockownerArgs {
    pub clientid: Clientid4,
    pub owner: Vec<u8>,
}

impl Decode for ReleaseLockownerArgs {
    open spec fn decoded_len(s: Seq<u8>) -> Result<nat, XdrError> {
        let n = Clientid4::decoded_len(s);
        let n = after::<Vec<u8>>(n, s);
        n
    }

    open spec fn decodes_to(&self, s: Seq<u8>) -> bool {
        let n1 = Clientid4::decoded_len(s);
        &&& self.clientid.decodes_to(s)
        &&& self.owner.decodes_to(rest(n1, s))
    }

    fn decode(src: &mut Reader<'_>) -> (r: Result<Self, XdrError>) {
        let clientid: Clientid4 = Clientid4::decode(src)?;
        let owner: Vec<u8> = Vec::<u8>::decode(src)?;
        Ok(ReleaseLockownerArgs { clientid, owner })
    }
}

// ---------------------------------------------------------------------------
// Files
// ---------------------------------------------------------------------------

/// What is read.
#[derive(Debug)]
pub struct ReadArgs {
    pub stateid: Stateid4,
    pub offset: u64,
    pub count: u32,
}

impl Decode for ReadArgs {
    open spec fn decoded_len(s: Seq<u8>) -> Result<nat, XdrError> {
        let n = Stateid4::decoded_len(s);
        let n = after::<u64>(n, s);
        let n = after::<u32>(n, s);
        n
    }

    open spec fn decodes_to(&self, s: Seq<u8>) -> bool {
        let n1 = Stateid4::decoded_len(s);
        let n2 = after::<u64>(n1, s);
        &&& self.stateid.decodes_to(s)
        &&& self.offset.decodes_to(rest(n1, s))
        &&& self.count.decodes_to(rest(n2, s))
    }

    fn decode(src: &mut Reader<'_>) -> (r: Result<Self, XdrError>) {
        let stateid: Stateid4 = Stateid4::decode(src)?;
        let offset: u64 = u64::decode(src)?;
        let count: u32 = u32::decode(src)?;
        Ok(ReadArgs { stateid, offset, count })
    }
}

/// What is written.
#[derive(Debug)]
pub struct WriteArgs {
    pub stateid: Stateid4,
    pub offset: u64,
    pub stable: u32,
    pub data: Vec<u8>,
}

impl Decode for WriteArgs {
    open spec fn decoded_len(s: Seq<u8>) -> Result<nat, XdrError> {
        let n = Stateid4::decoded_len(s);
        let n = after::<u64>(n, s);
        let n = after::<u32>(n, s);
        let n = after::<Vec<u8>>(n, s);
        n
    }

    open spec fn decodes_to(&self, s: Seq<u8>) -> bool {
        let n1 = Stateid4::decoded_len(s);
        let n2 = after::<u64>(n1, s);
        let n3 = after::<u32>(n2, s);
        &&& self.stateid.decodes_to(s)
        &&& self.offset.decodes_to(rest(n1, s))
        &&& self.stable.decodes_to(rest(n2, s))
        &&& self.data.decodes_to(rest(n3, s))
    }

    fn decode(src: &mut Reader<'_>) -> (r: Result<Self, XdrError>) {
        let stateid: Stateid4 = Stateid4::decode(src)?;
        let offset: u64 = u64::decode(src)?;
        let stable: u32 = u32::decode(src)?;
        let data: Vec<u8> = Vec::<u8>::decode(src)?;
        Ok(WriteArgs { stateid, offset, stable, data })
    }
}

/// What is to last.
#[derive(Debug)]
pub struct CommitArgs {
    pub offset: u64,
    pub count: u32,
}

impl Decode for CommitArgs {
    open spec fn decoded_len(s: Seq<u8>) -> Result<nat, XdrError> {
        let n = u64::decoded_len(s);
        let n = after::<u32>(n, s);
        n
    }

    open spec fn decodes_to(&self, s: Seq<u8>) -> bool {
        let n1 = u64::decoded_len(s);
        &&& self.offset.decodes_to(s)
        &&& self.count.decodes_to(rest(n1, s))
    }

    fn decode(src: &mut Reader<'_>) -> (r: Result<Self, XdrError>) {
        let offset: u64 = u64::decode(src)?;
        let count: u32 = u32::decode(src)?;
        Ok(CommitArgs { offset, count })
    }
}

/// Which attributes are set.
#[derive(Debug)]
pub struct SetattrArgs {
    pub stateid: Stateid4,
    pub fattr: Fattr4,
}

impl Decode for SetattrArgs {
    open spec fn decoded_len(s: Seq<u8>) -> Result<nat, XdrError> {
        let n = Stateid4::decoded_len(s);
        let n = after::<Fattr4>(n, s);
        n
    }

    open spec fn decodes_to(&self, s: Seq<u8>) -> bool {
        let n1 = Stateid4::decoded_len(s);
        &&& self.stateid.decodes_to(s)
        &&& self.fattr.decodes_to(rest(n1, s))
    }

    fn decode(src: &mut Reader<'_>) -> (r: Result<Self, XdrError>) {
        let stateid: Stateid4 = Stateid4::decode(src)?;
        let fattr: Fattr4 = Fattr4::decode(src)?;
        Ok(SetattrArgs { stateid, fattr })
    }
}

/// What of a directory is listed.
#[derive(Debug)]
pub struct ReaddirArgs {
    pub cookie: u64,
    pub cookieverf: Verifier4,
    pub dircount: u32,
    pub maxcount: u32,
    pub attr_request: List<u32>,
}

impl Decode for ReaddirArgs {
    open spec fn decoded_len(s: Seq<u8>) -> Result<nat, XdrError> {
        let n = u64::decoded_len(s);
        let n = after::<Verifier4>(n, s);
        let n = after::<u32>(n, s);
        let n = after::<u32>(n, s);
        let n = after::<List<u32>>(n, s);
        n
    }

    open spec fn decodes_to(&self, s: Seq<u8>) -> bool {
        let n1 = u64::decoded_len(s);
        let n2 = after::<Verifier4>(n1, s);
        let n3 = after::<u32>(n2, s);
        let n4 = after::<u32>(n3, s);
        &&& self.cookie.decodes_to(s)
        &&& self.cookieverf.decodes_to(rest(n1, s))
        &&& self.dircount.decodes_to(rest(n2, s))
        &&& self.maxcount.decodes_to(rest(n3, s))
        &&& self.attr_request.decodes_to(rest(n4, s))
    }

    fn decode(src: &mut Reader<'_>) -> (r: Result<Self, XdrError>) {
        let cookie: u64 = u64::decode(src)?;
        let cookieverf: Verifier4 = Verifier4::decode(src)?;
        let dircount: u32 = u32::decode(src)?;
        let maxcount: u32 = u32::decode(src)?;
        let attr_request: List<u32> = List::<u32>::decode(src)?;
        Ok(ReaddirArgs { cookie, cookieverf, dircount, maxcount, attr_request })
    }
}

/// What is renamed, and to what.
#[derive(Debug)]
pub struct RenameArgs {
    pub oldname: Vec<u8>,
    pub newname: Vec<u8>,
}

impl Decode for RenameArgs {
    open spec fn decoded_len(s: Seq<u8>) -> Result<nat, XdrError> {
        let n = Vec::<u8>::decoded_len(s);
        let n = after::<Vec<u8>>(n, s);
        n
    }

    open spec fn decodes_to(&self, s: Seq<u8>) -> bool {
        let n1 = Vec::<u8>::decoded_len(s);
        &&& self.oldname.decodes_to(s)
        &&& self.newname.decodes_to(rest(n1, s))
    }

    fn decode(src: &mut Reader<'_>) -> (r: Result<Self, XdrError>) {
        let oldname: Vec<u8> = Vec::<u8>::decode(src)?;
        let newname: Vec<u8> = Vec::<u8>::decode(src)?;
        Ok(RenameArgs { oldname, newname })
    }
}

/// What is made: a kind, with what a symbolic link points to or which device it is.
#[derive(Debug)]
pub struct CreateKind {
    pub obj_type: u32,
    pub link: Option<Vec<u8>>,
}

/// The kind of a block device.
pub const NF4BLK: u32 = 3;

/// The kind of a character device.
pub const NF4CHR: u32 = 4;

/// The kind of a symbolic link.
pub const NF4LNK: u32 = 5;

impl Decode for CreateKind {
    open spec fn decoded_len(s: Seq<u8>) -> Result<nat, XdrError> {
        match need(s, 4) {
            Err(e) => Err(e),
            Ok(n) => if be32_at(s) == NF4LNK {
                after::<Vec<u8>>(Ok(n), s)
            } else if be32_at(s) == NF4BLK || be32_at(s) == NF4CHR {
                after::<u64>(Ok(n), s)
            } else {
                Ok(n)
            },
        }
    }

    open spec fn decodes_to(&self, s: Seq<u8>) -> bool {
        &&& self.obj_type == be32_at(s)
        &&& if be32_at(s) == NF4LNK {
            self.link is Some && self.link->Some_0.decodes_to(s.skip(4))
        } else {
            self.link is None
        }
    }

    fn decode(src: &mut Reader<'_>) -> (r: Result<Self, XdrError>) {
        let obj_type: u32 = src.read_u32()?;
        if obj_type == NF4LNK {
            let link = Vec::<u8>::decode(src)?;
            Ok(CreateKind { obj_type, link: Some(link) })
        } else if obj_type == NF4BLK || obj_type == NF4CHR {
            let _: u64 = src.read_u64()?;
            Ok(CreateKind { obj_type, link: None })
        } else {
            Ok(CreateKind { obj_type, link: None })
        }
    }
}

/// What is made in a directory.
#[derive(Debug)]
pub struct CreateArgs {
    pub kind: CreateKind,
    pub objname: Vec<u8>,
    pub fattr: Fattr4,
}

impl Decode for CreateArgs {
    open spec fn decoded_len(s: Seq<u8>) -> Result<nat, XdrError> {
        let n = CreateKind::decoded_len(s);
        let n = after::<Vec<u8>>(n, s);
        let n = after::<Fattr4>(n, s);
        n
    }

    open spec fn decodes_to(&self, s: Seq<u8>) -> bool {
        let n1 = CreateKind::decoded_len(s);
        let n2 = after::<Vec<u8>>(n1, s);
        &&& self.kind.decodes_to(s)
        &&& self.objname.decodes_to(rest(n1, s))
        &&& self.fattr.decodes_to(rest(n2, s))
    }

    fn decode(src: &mut Reader<'_>) -> (r: Result<Self, XdrError>) {
        let kind: CreateKind = CreateKind::decode(src)?;
        let objname: Vec<u8> = Vec::<u8>::decode(src)?;
        let fattr: Fattr4 = Fattr4::decode(src)?;
        Ok(CreateArgs { kind, objname, fattr })
    }
}

// ---------------------------------------------------------------------------
// What is passed over
// ---------------------------------------------------------------------------

/// A byte string of any length.
#[derive(Debug)]
pub struct AnyOpaque;

impl Decode for AnyOpaque {
    open spec fn decoded_len(s: Seq<u8>) -> Result<nat, XdrError> {
        match need(s, 4) {
            Err(e) => Err(e),
            Ok(n) => need(s, n + be32_at(s) as nat + pad_len(be32_at(s) as nat)),
        }
    }

    open spec fn decodes_to(&self, s: Seq<u8>) -> bool {
        true
    }

    fn decode(src: &mut Reader<'_>) -> (r: Result<Self, XdrError>) {
        let len: u32 = src.read_u32()?;
        src.skip_bytes(len as usize)?;
        let pad: usize = (4 - len as usize % 4) % 4;
        src.skip_bytes(pad)?;
        Ok(AnyOpaque)
    }
}

/// A delegation, and a name in the current directory.
#[derive(Debug)]
pub struct DelegatedName {
    pub stateid: Stateid4,
    pub name: Vec<u8>,
}

impl Decode for DelegatedName {
    open spec fn decoded_len(s: Seq<u8>) -> Result<nat, XdrError> {
        after::<Vec<u8>>(Stateid4::decoded_len(s), s)
    }

    open spec fn decodes_to(&self, s: Seq<u8>) -> bool {
        let n = Stateid4::decoded_len(s);
        &&& self.stateid.decodes_to(s)
        &&& self.name.decodes_to(rest(n, s))
    }

    fn decode(src: &mut Reader<'_>) -> (r: Result<Self, XdrError>) {
        let stateid = Stateid4::decode(src)?;
        let name = Vec::<u8>::decode(src)?;
        Ok(DelegatedName { stateid, name })
    }
}

/// What says that a file was made by the same request before, and its attributes.
#[derive(Debug)]
pub struct ExclusiveAttrs {
    pub verifier: Verifier4,
    pub fattr: Fattr4,
}

impl Decode for ExclusiveAttrs {
    open spec fn decoded_len(s: Seq<u8>) -> Result<nat, XdrError> {
        after::<Fattr4>(Verifier4::decoded_len(s), s)
    }

    open spec fn decodes_to(&self, s: Seq<u8>) -> bool {
        let n = Verifier4::decoded_len(s);
        &&& self.verifier.decodes_to(s)
        &&& self.fattr.decodes_to(rest(n, s))
    }

    fn decode(src: &mut Reader<'_>) -> (r: Result<Self, XdrError>) {
        let verifier = Verifier4::decode(src)?;
        let fattr = Fattr4::decode(src)?;
        Ok(ExclusiveAttrs { verifier, fattr })
    }
}

/// How a file is to be made.
#[derive(Debug)]
pub struct CreateHow;

impl Decode for CreateHow {
    open spec fn decoded_len(s: Seq<u8>) -> Result<nat, XdrError> {
        match need(s, 4) {
            Err(e) => Err(e),
            Ok(n) => if be32_at(s) == 0 || be32_at(s) == 1 {
                after::<Fattr4>(Ok(n), s)
            } else if be32_at(s) == 2 {
                after::<Verifier4>(Ok(n), s)
            } else if be32_at(s) == 3 {
                after::<ExclusiveAttrs>(Ok(n), s)
            } else {
                Ok(n)
            },
        }
    }

    open spec fn decodes_to(&self, s: Seq<u8>) -> bool {
        true
    }

    fn decode(src: &mut Reader<'_>) -> (r: Result<Self, XdrError>) {
        let mode: u32 = src.read_u32()?;
        if mode == 0 || mode == 1 {
            let _ = Fattr4::decode(src)?;
        } else if mode == 2 {
            let _ = Verifier4::decode(src)?;
        } else if mode == 3 {
            let _ = ExclusiveAttrs::decode(src)?;
        }
        Ok(CreateHow)
    }
}

/// By what right a file is opened.
#[derive(Debug)]
pub struct ClaimArgs;

impl Decode for ClaimArgs {
    open spec fn decoded_len(s: Seq<u8>) -> Result<nat, XdrError> {
        match need(s, 4) {
            Err(e) => Err(e),
            Ok(n) => if be32_at(s) == 0 || be32_at(s) == 3 {
                after::<Vec<u8>>(Ok(n), s)
            } else if be32_at(s) == 2 {
                after::<DelegatedName>(Ok(n), s)
            } else if be32_at(s) == 5 {
                after::<Stateid4>(Ok(n), s)
            } else {
                Ok(n)
            },
        }
    }

    open spec fn decodes_to(&self, s: Seq<u8>) -> bool {
        true
    }

    fn decode(src: &mut Reader<'_>) -> (r: Result<Self, XdrError>) {
        let kind: u32 = src.read_u32()?;
        if kind == 0 || kind == 3 {
            let _ = Vec::<u8>::decode(src)?;
        } else if kind == 2 {
            let _ = DelegatedName::decode(src)?;
        } else if kind == 5 {
            let _ = Stateid4::decode(src)?;
        }
        Ok(ClaimArgs)
    }
}

/// What a file is opened with, from one end to the other.
#[derive(Debug)]
pub struct OpenArgs;

impl OpenArgs {
    /// Where the claim starts.
    pub open spec fn claim_at(s: Seq<u8>) -> Result<nat, XdrError> {
        match OpenHead::decoded_len(s) {
            Err(e) => Err(e),
            Ok(n) => if be32_at(s.skip(n - 4)) == 1 {
                after::<CreateHow>(Ok(n), s)
            } else {
                Ok(n)
            },
        }
    }
}

impl Decode for OpenArgs {
    open spec fn decoded_len(s: Seq<u8>) -> Result<nat, XdrError> {
        after::<ClaimArgs>(OpenArgs::claim_at(s), s)
    }

    open spec fn decodes_to(&self, s: Seq<u8>) -> bool {
        true
    }

    fn decode(src: &mut Reader<'_>) -> (r: Result<Self, XdrError>) {
        let head = OpenHead::decode(src)?;
        if head.opentype == 1 {
            let _ = CreateHow::decode(src)?;
        }
        let _ = ClaimArgs::decode(src)?;
        Ok(OpenArgs)
    }
}

/// What a range is locked with, from one end to the other.
#[derive(Debug)]
pub struct LockArgs;

impl Decode for LockArgs {
    open spec fn decoded_len(s: Seq<u8>) -> Result<nat, XdrError> {
        match LockHead::decoded_len(s) {
            Err(e) => Err(e),
            Ok(n) => if be32_at(s.skip(n - 4)) == 1 {
                after::<NewLocker>(Ok(n), s)
            } else {
                after::<OldLocker>(Ok(n), s)
            },
        }
    }

    open spec fn decodes_to(&self, s: Seq<u8>) -> bool {
        true
    }

    fn decode(src: &mut Reader<'_>) -> (r: Result<Self, XdrError>) {
        let head = LockHead::decode(src)?;
        if head.locker_type == 1 {
            let _ = NewLocker::decode(src)?;
        } else {
            let _ = OldLocker::decode(src)?;
        }
        Ok(LockArgs)
    }
}

} // verus!
