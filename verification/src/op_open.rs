//! Opening and closing files.

use crate::args::{ClaimArgs, CreateHow, DelegatedName, ExclusiveAttrs, OpenArgs, OpenHead};
use crate::attrs::{parse_setattr_attrs, parsed, SetAttrs};
use crate::backchannel::Outbound;
use crate::bytes::{be32, be32_at, key12, put_bytes, put_u32, Reader, XdrError};
use crate::compound::{CompoundContext, CompoundHandler};
use crate::delegation::{encode_open_delegation, open_delegation_bytes, recalled, Delegation};
use crate::error::{failure, fails_with, Nfs4Error, Nfs4Result, Nfs4Status};
use crate::fs::{handle_of, ROOT_FILEID};
use crate::open::{open_key, OpenState, SHARE_WRITE};
use crate::ops::{
    answer_with, answers_with, change_bytes, change_number, change_of, fetch, fetches, give_up,
    gives_up, has_read, look_up, looks_up, pass_on, put_change, read_args, stop, stops, OpStep,
    OpTask,
};
use crate::storage::{FsAnswer, FsCall};
use crate::text::{lossy_text, strict_text_of, text_of};
use crate::time::Duration;
use crate::types::{Clientid4, Fattr4, FileType, Fileid4, Nfs4FileHandle, Stateid4, Verifier4};
use crate::xdr::{Decode, XDR};
use vstd::prelude::*;

verus! {

broadcast use vstd::std_specs::hash::group_hash_axioms;

// ---------------------------------------------------------------------------
// What a client asks for
// ---------------------------------------------------------------------------

/// By what right a file is opened.
#[derive(Debug)]
pub enum OpenClaim {
    /// By a name in the current directory.
    Null(Vec<u8>),
    /// It was open before the server was started.
    Previous,
    /// By a delegation, and a name in the current directory.
    DelegCur { stateid: Stateid4, name: Vec<u8> },
    /// By a delegation from before the client was started, and a name.
    DelegPrev,
    /// By the current handle.
    Fh,
    /// By a delegation from before the client was started, and the current handle.
    DelegPrevFh,
    /// By a delegation, and the current handle.
    DelegCurFh(Stateid4),
}

/// A request to open a file.
#[derive(Debug)]
pub struct OpenRequest {
    pub head: OpenHead,
    /// The attributes that a file gets that is made, where they are given.
    pub attrs: Option<SetAttrs>,
    pub claim: OpenClaim,
}

/// Whether the attributes of a file that is made have the given meaning.
pub open spec fn reads_attrs(fattr: Fattr4, r: Nfs4Result<Option<SetAttrs>>) -> bool {
    exists|p: Result<SetAttrs, XdrError>| #[trigger]
        parsed(fattr, p) && match p {
            Err(_) => fails_with(r, Nfs4Status::Io),
            Ok(set) => r == Ok::<Option<SetAttrs>, Nfs4Error>(Some(set)),
        }
}

/// Whether `r` is what reading comes to how a file is to be made: in the first two ways its
/// attributes are given, in the third what tells the request apart from others, and in the fourth
/// both.
pub open spec fn has_read_mode(s: Seq<u8>, left: Seq<u8>, r: Nfs4Result<Option<SetAttrs>>) -> bool {
    exists|got: Nfs4Result<u32>, t: Seq<u8>|
        {
            &&& #[trigger] has_read::<u32>(s, t, got)
            &&& match got {
                Err(e) => r == Err::<Option<SetAttrs>, Nfs4Error>(e),
                Ok(mode) => if mode == 0 || mode == 1 {
                    exists|f: Nfs4Result<Fattr4>|
                        {
                            &&& #[trigger] has_read::<Fattr4>(t, left, f)
                            &&& match f {
                                Err(e) => r == Err::<Option<SetAttrs>, Nfs4Error>(e),
                                Ok(fattr) => reads_attrs(fattr, r),
                            }
                        }
                } else if mode == 2 {
                    exists|v: Nfs4Result<Verifier4>|
                        {
                            &&& #[trigger] has_read::<Verifier4>(t, left, v)
                            &&& match v {
                                Err(e) => r == Err::<Option<SetAttrs>, Nfs4Error>(e),
                                Ok(_) => r == Ok::<Option<SetAttrs>, Nfs4Error>(None),
                            }
                        }
                } else if mode == 3 {
                    exists|f: Nfs4Result<ExclusiveAttrs>|
                        {
                            &&& #[trigger] has_read::<ExclusiveAttrs>(t, left, f)
                            &&& match f {
                                Err(e) => r == Err::<Option<SetAttrs>, Nfs4Error>(e),
                                Ok(x) => reads_attrs(x.fattr, r),
                            }
                        }
                } else {
                    fails_with(r, Nfs4Status::Inval) && left == t
                },
            }
        }
}

fn attrs_of(fattr: &Fattr4) -> (r: Nfs4Result<Option<SetAttrs>>)
    ensures
        reads_attrs(*fattr, r),
{
    let p = parse_setattr_attrs(fattr);
    assert(parsed(*fattr, p));
    match p {
        Ok(set) => Ok(Some(set)),
        Err(_) => failure(Nfs4Status::Io),
    }
}

fn read_mode(input: &mut Reader<'_>) -> (r: Nfs4Result<Option<SetAttrs>>)
    ensures
        has_read_mode(old(input)@, final(input)@, r),
{
    let ghost s = input@;
    let got = read_args::<u32>(input);
    let ghost t = input@;
    assert(has_read::<u32>(s, t, got));
    let mode: u32 = match got {
        Ok(m) => m,
        Err(e) => {
            return Err(e);
        },
    };
    if mode == 0 || mode == 1 {
        let f = read_args::<Fattr4>(input);
        assert(has_read::<Fattr4>(t, input@, f));
        match f {
            Ok(fattr) => attrs_of(&fattr),
            Err(e) => Err(e),
        }
    } else if mode == 2 {
        let v = read_args::<Verifier4>(input);
        assert(has_read::<Verifier4>(t, input@, v));
        match v {
            Ok(_) => Ok(None),
            Err(e) => Err(e),
        }
    } else if mode == 3 {
        let f = read_args::<ExclusiveAttrs>(input);
        assert(has_read::<ExclusiveAttrs>(t, input@, f));
        match f {
            Ok(x) => attrs_of(&x.fattr),
            Err(e) => Err(e),
        }
    } else {
        failure(Nfs4Status::Inval)
    }
}

/// Whether `r` is what reading comes to by what right a file is opened.
pub open spec fn has_read_claim(s: Seq<u8>, left: Seq<u8>, r: Nfs4Result<OpenClaim>) -> bool {
    exists|got: Nfs4Result<u32>, t: Seq<u8>|
        {
            &&& #[trigger] has_read::<u32>(s, t, got)
            &&& match got {
                Err(e) => r == Err::<OpenClaim, Nfs4Error>(e),
                Ok(kind) => if kind == 0 {
                    exists|n: Nfs4Result<Vec<u8>>|
                        {
                            &&& #[trigger] has_read::<Vec<u8>>(t, left, n)
                            &&& match n {
                                Err(e) => r == Err::<OpenClaim, Nfs4Error>(e),
                                Ok(name) => r == Ok::<OpenClaim, Nfs4Error>(OpenClaim::Null(name)),
                            }
                        }
                } else if kind == 2 {
                    exists|n: Nfs4Result<DelegatedName>|
                        {
                            &&& #[trigger] has_read::<DelegatedName>(t, left, n)
                            &&& match n {
                                Err(e) => r == Err::<OpenClaim, Nfs4Error>(e),
                                Ok(d) => r == Ok::<OpenClaim, Nfs4Error>(
                                    OpenClaim::DelegCur { stateid: d.stateid, name: d.name },
                                ),
                            }
                        }
                } else if kind == 3 {
                    exists|n: Nfs4Result<Vec<u8>>|
                        {
                            &&& #[trigger] has_read::<Vec<u8>>(t, left, n)
                            &&& match n {
                                Err(e) => r == Err::<OpenClaim, Nfs4Error>(e),
                                Ok(_) => r == Ok::<OpenClaim, Nfs4Error>(OpenClaim::DelegPrev),
                            }
                        }
                } else if kind == 5 {
                    exists|n: Nfs4Result<Stateid4>|
                        {
                            &&& #[trigger] has_read::<Stateid4>(t, left, n)
                            &&& match n {
                                Err(e) => r == Err::<OpenClaim, Nfs4Error>(e),
                                Ok(sid) => r == Ok::<OpenClaim, Nfs4Error>(
                                    OpenClaim::DelegCurFh(sid),
                                ),
                            }
                        }
                } else {
                    &&& left == t
                    &&& if kind == 1 {
                        r == Ok::<OpenClaim, Nfs4Error>(OpenClaim::Previous)
                    } else if kind == 4 {
                        r == Ok::<OpenClaim, Nfs4Error>(OpenClaim::Fh)
                    } else if kind == 6 {
                        r == Ok::<OpenClaim, Nfs4Error>(OpenClaim::DelegPrevFh)
                    } else {
                        fails_with(r, Nfs4Status::Inval)
                    }
                },
            }
        }
}

fn parse_open_claim(input: &mut Reader<'_>) -> (r: Nfs4Result<OpenClaim>)
    ensures
        has_read_claim(old(input)@, final(input)@, r),
{
    let ghost s = input@;
    let got = read_args::<u32>(input);
    let ghost t = input@;
    assert(has_read::<u32>(s, t, got));
    let kind: u32 = match got {
        Ok(k) => k,
        Err(e) => {
            return Err(e);
        },
    };
    if kind == 0 {
        let n = read_args::<Vec<u8>>(input);
        assert(has_read::<Vec<u8>>(t, input@, n));
        match n {
            Ok(name) => Ok(OpenClaim::Null(name)),
            Err(e) => Err(e),
        }
    } else if kind == 2 {
        let n = read_args::<DelegatedName>(input);
        assert(has_read::<DelegatedName>(t, input@, n));
        match n {
            Ok(d) => Ok(OpenClaim::DelegCur { stateid: d.stateid, name: d.name }),
            Err(e) => Err(e),
        }
    } else if kind == 3 {
        let n = read_args::<Vec<u8>>(input);
        assert(has_read::<Vec<u8>>(t, input@, n));
        match n {
            Ok(_) => Ok(OpenClaim::DelegPrev),
            Err(e) => Err(e),
        }
    } else if kind == 5 {
        let n = read_args::<Stateid4>(input);
        assert(has_read::<Stateid4>(t, input@, n));
        match n {
            Ok(sid) => Ok(OpenClaim::DelegCurFh(sid)),
            Err(e) => Err(e),
        }
    } else if kind == 1 {
        Ok(OpenClaim::Previous)
    } else if kind == 4 {
        Ok(OpenClaim::Fh)
    } else if kind == 6 {
        Ok(OpenClaim::DelegPrevFh)
    } else {
        failure(Nfs4Status::Inval)
    }
}

/// Whether `r` is what reading comes to how the file is to be made, where it is to be.
pub open spec fn has_read_how(
    opentype: u32,
    s: Seq<u8>,
    left: Seq<u8>,
    r: Nfs4Result<Option<SetAttrs>>,
) -> bool {
    if opentype == 1 {
        has_read_mode(s, left, r)
    } else {
        left == s && r == Ok::<Option<SetAttrs>, Nfs4Error>(None)
    }
}

/// Whether `r` is what reading a request to open a file comes to.
pub open spec fn has_read_open(s: Seq<u8>, left: Seq<u8>, r: Nfs4Result<OpenRequest>) -> bool {
    exists|h: Nfs4Result<OpenHead>, t: Seq<u8>|
        {
            &&& #[trigger] has_read::<OpenHead>(s, t, h)
            &&& match h {
                Err(e) => r == Err::<OpenRequest, Nfs4Error>(e),
                Ok(head) => exists|a: Nfs4Result<Option<SetAttrs>>, u: Seq<u8>|
                    {
                        &&& #[trigger] has_read_how(head.opentype, t, u, a)
                        &&& match a {
                            Err(e) => r == Err::<OpenRequest, Nfs4Error>(e),
                            Ok(attrs) => exists|c: Nfs4Result<OpenClaim>|
                                {
                                    &&& #[trigger] has_read_claim(u, left, c)
                                    &&& match c {
                                        Err(e) => r == Err::<OpenRequest, Nfs4Error>(e),
                                        Ok(claim) => r == Ok::<OpenRequest, Nfs4Error>(
                                            OpenRequest { head, attrs, claim },
                                        ),
                                    }
                                },
                        }
                    },
            }
        }
}

/// Reads a request to open a file.
pub fn read_open(input: &mut Reader<'_>) -> (r: Nfs4Result<OpenRequest>)
    ensures
        has_read_open(old(input)@, final(input)@, r),
{
    let ghost s = input@;
    let h = read_args::<OpenHead>(input);
    let ghost t = input@;
    assert(has_read::<OpenHead>(s, t, h));
    let head = match h {
        Ok(head) => head,
        Err(e) => {
            return Err(e);
        },
    };
    let a = if head.opentype == 1 {
        read_mode(input)
    } else {
        Ok(None)
    };
    let ghost u = input@;
    assert(has_read_how(head.opentype, t, u, a));
    let attrs = match a {
        Ok(attrs) => attrs,
        Err(e) => {
            return Err(e);
        },
    };
    let c = parse_open_claim(input);
    assert(has_read_claim(u, input@, c));
    match c {
        Ok(claim) => Ok(OpenRequest { head, attrs, claim }),
        Err(e) => Err(e),
    }
}

/// Whether `left` is what is left of `s` behind a value.
spec fn behind<T: Decode>(s: Seq<u8>, left: Seq<u8>) -> bool {
    &&& T::decoded_len(s) is Ok
    &&& T::decoded_len(s)->Ok_0 <= s.len()
    &&& left == s.skip(T::decoded_len(s)->Ok_0 as int)
}

proof fn one_more<T: Decode>(n: nat, s: Seq<u8>, u: Seq<u8>, left: Seq<u8>)
    requires
        n <= s.len(),
        u == s.skip(n as int),
        behind::<T>(u, left),
    ensures
        crate::xdr::after::<T>(Ok(n), s) is Ok,
        left == s.skip(crate::xdr::after::<T>(Ok(n), s)->Ok_0 as int),
        crate::xdr::after::<T>(Ok(n), s)->Ok_0 == n + T::decoded_len(u)->Ok_0,
{
    broadcast use crate::bytes::skip_skip;

}

proof fn mode_is_passed_over(s: Seq<u8>, left: Seq<u8>, r: Nfs4Result<Option<SetAttrs>>)
    requires
        has_read_mode(s, left, r),
        r is Ok,
    ensures
        behind::<CreateHow>(s, left),
{
    broadcast use crate::bytes::skip_skip;

}

proof fn claim_is_passed_over(s: Seq<u8>, left: Seq<u8>, r: Nfs4Result<OpenClaim>)
    requires
        has_read_claim(s, left, r),
        r is Ok,
    ensures
        behind::<ClaimArgs>(s, left),
{
    broadcast use crate::bytes::skip_skip;

}

proof fn head_is_passed_over(s: Seq<u8>, t: Seq<u8>, head: OpenHead)
    requires
        has_read::<OpenHead>(s, t, Ok(head)),
    ensures
        behind::<OpenHead>(s, t),
        head.opentype == be32_at(s.skip(OpenHead::decoded_len(s)->Ok_0 - 4)),
{
}

proof fn open_is_passed_over(s: Seq<u8>, t: Seq<u8>, u: Seq<u8>, left: Seq<u8>, head: OpenHead)
    requires
        behind::<OpenHead>(s, t),
        head.opentype == be32_at(s.skip(OpenHead::decoded_len(s)->Ok_0 - 4)),
        if head.opentype == 1 {
            behind::<CreateHow>(t, u)
        } else {
            u == t
        },
        behind::<ClaimArgs>(u, left),
    ensures
        behind::<OpenArgs>(s, left),
{
    let n = OpenHead::decoded_len(s)->Ok_0;
    if head.opentype == 1 {
        one_more::<CreateHow>(n, s, t, u);
        one_more::<ClaimArgs>(n + CreateHow::decoded_len(t)->Ok_0, s, u, left);
    } else {
        one_more::<ClaimArgs>(n, s, u, left);
    }
}

/// A request to open a file that can be read is passed over as a whole: exactly the bytes are
/// skipped that reading it takes up.
pub proof fn law_open_is_passed_over(s: Seq<u8>, left: Seq<u8>, r: Nfs4Result<OpenRequest>)
    requires
        has_read_open(s, left, r),
        r is Ok,
    ensures
        OpenArgs::decoded_len(s) is Ok,
        left == s.skip(OpenArgs::decoded_len(s)->Ok_0 as int),
{
    let (h, t) = choose|h: Nfs4Result<OpenHead>, t: Seq<u8>|
        {
            &&& #[trigger] has_read::<OpenHead>(s, t, h)
            &&& match h {
                Err(e) => r == Err::<OpenRequest, Nfs4Error>(e),
                Ok(head) => exists|a: Nfs4Result<Option<SetAttrs>>, u: Seq<u8>|
                    {
                        &&& #[trigger] has_read_how(head.opentype, t, u, a)
                        &&& match a {
                            Err(e) => r == Err::<OpenRequest, Nfs4Error>(e),
                            Ok(attrs) => exists|c: Nfs4Result<OpenClaim>|
                                {
                                    &&& #[trigger] has_read_claim(u, left, c)
                                    &&& match c {
                                        Err(e) => r == Err::<OpenRequest, Nfs4Error>(e),
                                        Ok(claim) => r == Ok::<OpenRequest, Nfs4Error>(
                                            OpenRequest { head, attrs, claim },
                                        ),
                                    }
                                },
                        }
                    },
            }
        };
    let head = h->Ok_0;
    let (a, u) = choose|a: Nfs4Result<Option<SetAttrs>>, u: Seq<u8>|
        {
            &&& #[trigger] has_read_how(head.opentype, t, u, a)
            &&& match a {
                Err(e) => r == Err::<OpenRequest, Nfs4Error>(e),
                Ok(attrs) => exists|c: Nfs4Result<OpenClaim>|
                    {
                        &&& #[trigger] has_read_claim(u, left, c)
                        &&& match c {
                            Err(e) => r == Err::<OpenRequest, Nfs4Error>(e),
                            Ok(claim) => r == Ok::<OpenRequest, Nfs4Error>(
                                OpenRequest { head, attrs, claim },
                            ),
                        }
                    },
            }
        };
    head_is_passed_over(s, t, head);
    if head.opentype == 1 {
        mode_is_passed_over(t, u, a);
    }
    let c = choose|c: Nfs4Result<OpenClaim>|
        {
            &&& #[trigger] has_read_claim(u, left, c)
            &&& match c {
                Err(e) => r == Err::<OpenRequest, Nfs4Error>(e),
                Ok(claim) => r == Ok::<OpenRequest, Nfs4Error>(
                    OpenRequest { head, attrs: a->Ok_0, claim },
                ),
            }
        };
    claim_is_passed_over(u, left, c);
    open_is_passed_over(s, t, u, left, head);
}

// ---------------------------------------------------------------------------
// How opening goes on
// ---------------------------------------------------------------------------

/// A file that is being opened.
#[derive(Clone, Copy, Debug)]
pub struct Opened {
    pub clientid: Clientid4,
    pub share_access: u32,
    /// What the change is told of.
    pub object: Fileid4,
    pub before: u64,
    pub fileid: Fileid4,
    /// Whether the file was made.
    pub made: bool,
    pub stateid: Stateid4,
}

/// How far the opening of a file has come.
#[derive(Debug)]
pub enum Opening {
    /// The file that a delegation is claimed of is looked for.
    Delegated { request: OpenRequest, dir: Fileid4 },
    /// How the directory is before is fetched.
    Before { request: OpenRequest, dir: Fileid4, object: Fileid4 },
    /// The file is looked for, to see whether a delegation is in the way.
    Conflict { request: OpenRequest, dir: Fileid4, object: Fileid4, before: u64 },
    /// It was waited for a place to recall the file's delegation.
    Waited {
        request: OpenRequest,
        dir: Fileid4,
        object: Fileid4,
        before: u64,
        file: Option<Fileid4>,
    },
    /// The file is made.
    Making { request: OpenRequest, object: Fileid4, before: u64 },
    /// The attributes of the new file are set.
    Setting { request: OpenRequest, object: Fileid4, before: u64, fileid: Fileid4 },
    /// The file is looked for.
    Finding { request: OpenRequest, object: Fileid4, before: u64 },
    /// The file is opened at the storage.
    Opened { opened: Opened },
    /// How the directory is now is fetched.
    After { opened: Opened, out: Vec<u8> },
    /// The kind of the file is fetched.
    Kind { opened: Opened, out: Vec<u8> },
}

impl CompoundHandler {
    /// Why a file may not be opened by the right that is claimed, if it may not.
    pub open spec fn claim_fault(
        &self,
        claim: OpenClaim,
        minor_version: u32,
        clientid: Clientid4,
    ) -> Option<Nfs4Status> {
        let known = self.clients.clients@.contains_key(clientid);
        let client = self.clients.clients@[clientid];
        match claim {
            OpenClaim::Null(_) => if minor_version == 0 {
                None
            } else if !known {
                Some(Nfs4Status::StaleClientid)
            } else if !client.reclaim_complete {
                Some(Nfs4Status::Grace)
            } else {
                None
            },
            OpenClaim::Previous => if !self.grace.admits(true) {
                Some(Nfs4Status::NoGrace)
            } else if !known {
                Some(Nfs4Status::StaleClientid)
            } else if !client.allow_reclaim {
                Some(Nfs4Status::NoGrace)
            } else if minor_version > 0 && client.reclaim_complete {
                Some(Nfs4Status::NoGrace)
            } else {
                None
            },
            OpenClaim::DelegCur { .. } => if minor_version == 0 || !self.delegations.enabled {
                Some(Nfs4Status::Notsupp)
            } else {
                None
            },
            OpenClaim::DelegCurFh(_) => if minor_version == 0 || !self.delegations.enabled {
                Some(Nfs4Status::Notsupp)
            } else {
                None
            },
            OpenClaim::DelegPrev => Some(Nfs4Status::Notsupp),
            OpenClaim::DelegPrevFh => Some(Nfs4Status::Notsupp),
            OpenClaim::Fh => None,
        }
    }

    /// Sees whether a file may be opened by the right that is claimed.
    pub fn validate_claim(&mut self, claim: &OpenClaim, ctx: &CompoundContext, clientid: Clientid4)
        -> (r: Nfs4Result<()>)
        requires
            old(self).wf(),
            old(self).can_open(),
        ensures
            *final(self) == *old(self),
            match old(self).claim_fault(*claim, ctx.minor_version, clientid) {
                Some(st) => fails_with(r, st),
                None => r is Ok,
            },
    {
        match claim {
            OpenClaim::Null(_) => {
                if ctx.minor_version > 0 {
                    match self.clients.get_client(clientid) {
                        None => {
                            return failure(Nfs4Status::StaleClientid);
                        },
                        Some(client) => {
                            if !client.reclaim_complete {
                                return failure(Nfs4Status::Grace);
                            }
                        },
                    }
                }
                Ok(())
            },
            OpenClaim::Previous => {
                let ghost g = self.grace;
                match self.grace.acquire_grace_status(true) {
                    Err(_) => {
                        return failure(Nfs4Status::NoGrace);
                    },
                    Ok(guard) => {
                        guard.release(&mut self.grace);
                        assert(self.grace == g);
                    },
                }
                match self.clients.get_client(clientid) {
                    None => failure(Nfs4Status::StaleClientid),
                    Some(client) => {
                        if !client.allow_reclaim {
                            return failure(Nfs4Status::NoGrace);
                        }
                        if ctx.minor_version > 0 && client.reclaim_complete {
                            return failure(Nfs4Status::NoGrace);
                        }
                        Ok(())
                    },
                }
            },
            OpenClaim::DelegCur { .. } => {
                if ctx.minor_version == 0 || !self.delegations.is_enabled() {
                    return failure(Nfs4Status::Notsupp);
                }
                Ok(())
            },
            OpenClaim::DelegCurFh(_) => {
                if ctx.minor_version == 0 || !self.delegations.is_enabled() {
                    return failure(Nfs4Status::Notsupp);
                }
                Ok(())
            },
            OpenClaim::DelegPrev => failure(Nfs4Status::Notsupp),
            OpenClaim::DelegPrevFh => failure(Nfs4Status::Notsupp),
            OpenClaim::Fh => Ok(()),
        }
    }

    /// Why a file is not that of a delegation, if it is not.
    pub open spec fn delegation_fault(&self, stateid: Stateid4, fileid: Fileid4) -> Option<
        Nfs4Status,
    > {
        match self.delegations.named(stateid) {
            None => Some(Nfs4Status::BadStateid),
            Some(d) => if d.fileid == fileid {
                None
            } else {
                Some(Nfs4Status::BadStateid)
            },
        }
    }

    fn check_delegation(&self, stateid: &Stateid4, fileid: Fileid4) -> (r: Nfs4Result<()>)
        ensures
            match self.delegation_fault(*stateid, fileid) {
                Some(st) => fails_with(r, st),
                None => r is Ok,
            },
    {
        let d = self.delegations.verify_stateid(stateid)?;
        if d.fileid != fileid {
            return failure(Nfs4Status::BadStateid);
        }
        Ok(())
    }

    /// What opening begins with.
    pub open spec fn has_begun_to_open(
        &self,
        ctx: CompoundContext,
        request: OpenRequest,
        step: OpStep,
    ) -> bool {
        match self.claim_fault(request.claim, ctx.minor_version, request.head.clientid) {
            Some(st) => gives_up(step, st),
            None => match self.target(ctx) {
                Err(st) => gives_up(step, st),
                Ok(dir) => match request.claim {
                    OpenClaim::DelegCur { stateid, name } => if !vstd::utf8::valid_utf8(name@) {
                        gives_up(step, Nfs4Status::Badchar)
                    } else {
                        looks_up(
                            step,
                            OpTask::Open(Opening::Delegated { request, dir }),
                            dir,
                            vstd::utf8::decode_utf8(name@),
                        )
                    },
                    OpenClaim::DelegCurFh(stateid) => match self.delegation_fault(stateid, dir) {
                        Some(st) => gives_up(step, st),
                        None => fetches(
                            step,
                            OpTask::Open(Opening::Before { request, dir, object: dir }),
                            dir,
                        ),
                    },
                    _ => fetches(
                        step,
                        OpTask::Open(Opening::Before { request, dir, object: dir }),
                        dir,
                    ),
                },
            },
        }
    }

    /// Begins to open a file.
    pub fn open_begin(&mut self, ctx: &CompoundContext, request: OpenRequest) -> (r: OpStep)
        requires
            old(self).wf(),
            old(self).can_open(),
        ensures
            *final(self) == *old(self),
            old(self).has_begun_to_open(*ctx, request, r),
    {
        if let Err(e) = self.validate_claim(&request.claim, ctx, request.head.clientid) {
            return pass_on(e);
        }
        let dir = match self.current_file(ctx) {
            Err(e) => {
                return pass_on(e);
            },
            Ok(f) => f,
        };
        let mut named: Option<String> = None;
        match &request.claim {
            OpenClaim::DelegCur { name, .. } => match strict_text_of(name.as_slice()) {
                None => {
                    return give_up(Nfs4Status::Badchar);
                },
                Some(text) => {
                    named = Some(text);
                },
            },
            OpenClaim::DelegCurFh(stateid) => {
                if let Err(e) = self.check_delegation(stateid, dir) {
                    return pass_on(e);
                }
            },
            _ => {},
        }
        match named {
            Some(name) => look_up(
                OpTask::Open(Opening::Delegated { request, dir }),
                dir,
                name,
            ),
            None => fetch(
                OpTask::Open(Opening::Before { request, dir, object: dir }),
                dir,
            ),
        }
    }

    /// Begins to open a file.
    pub fn op_open(&mut self, input: &mut Reader<'_>, ctx: &CompoundContext) -> (r: OpStep)
        requires
            old(self).wf(),
            old(self).can_open(),
        ensures
            *final(self) == *old(self),
            exists|q: Nfs4Result<OpenRequest>|
                {
                    &&& #[trigger] has_read_open(old(input)@, final(input)@, q)
                    &&& match q {
                        Err(e) => r == (OpStep::Done { result: Err(e) }),
                        Ok(request) => old(self).has_begun_to_open(*ctx, request, r),
                    }
                },
    {
        let ghost s = input@;
        let q = read_open(input);
        assert(has_read_open(s, input@, q));
        match q {
            Err(e) => pass_on(e),
            Ok(request) => self.open_begin(ctx, request),
        }
    }

    /// The file that a delegation is claimed of was found.
    pub open spec fn open_delegated_step(
        &self,
        request: OpenRequest,
        dir: Fileid4,
        answer: Nfs4Result<FsAnswer>,
        step: OpStep,
    ) -> bool {
        match answer {
            Ok(FsAnswer::Found { fileid, .. }) => {
                let fault = match request.claim {
                    OpenClaim::DelegCur { stateid, .. } => self.delegation_fault(
                        stateid,
                        fileid,
                    ),
                    _ => None,
                };
                match fault {
                    Some(st) => gives_up(step, st),
                    None => fetches(
                        step,
                        OpTask::Open(Opening::Before { request, dir, object: fileid }),
                        fileid,
                    ),
                }
            },
            _ => stops(answer, step),
        }
    }

    /// The file that a delegation is claimed of was found.
    pub fn open_delegated(&self, request: OpenRequest, dir: Fileid4, answer: Nfs4Result<FsAnswer>)
        -> (r: OpStep)
        ensures
            self.open_delegated_step(request, dir, answer, r),
    {
        match answer {
            Ok(FsAnswer::Found { fileid, .. }) => {
                if let OpenClaim::DelegCur { stateid, .. } = &request.claim {
                    if let Err(e) = self.check_delegation(stateid, fileid) {
                        return pass_on(e);
                    }
                }
                fetch(
                    OpTask::Open(Opening::Before { request, dir, object: fileid }),
                    fileid,
                )
            },
            _ => stop(answer),
        }
    }

    /// Only the opens may differ from `before`.
    pub open spec fn same_but_opens(&self, before: &CompoundHandler) -> bool {
        *self == CompoundHandler { opens: self.opens, ..*before }
    }

    /// What opening a file comes to that is called `path`. Where the same owner has the file open
    /// already, it is opened once more.
    pub open spec fn has_opened_at(
        &self,
        before: &CompoundHandler,
        request: OpenRequest,
        object: Fileid4,
        change: u64,
        fileid: Fileid4,
        made: bool,
        path: String,
        step: OpStep,
    ) -> bool {
        let head = request.head;
        exists|got: Nfs4Result<(Stateid4, bool)>|
            {
                &&& #[trigger] self.opens.has_opened(
                    &before.opens,
                    head.clientid,
                    head.owner,
                    fileid,
                    path,
                    head.share_access,
                    head.share_deny,
                    got,
                )
                &&& self.same_but_opens(before)
                &&& match got {
                    Err(e) => step == (OpStep::Done { result: Err(e) }),
                    Ok((stateid, new)) => {
                        &&& step is Call
                        &&& step->task == OpTask::Open(
                            Opening::Opened {
                                opened: Opened {
                                    clientid: head.clientid,
                                    share_access: head.share_access,
                                    object,
                                    before: change,
                                    fileid,
                                    made,
                                    stateid,
                                },
                            },
                        )
                        &&& step->call == if new {
                            FsCall::Open { fileid, access: head.share_access }
                        } else {
                            FsCall::Reopen { fileid, access: head.share_access, add_ref: true }
                        }
                    },
                }
            }
    }

    /// What opening a file comes to, whether or not it is remembered what the file is called.
    pub open spec fn has_opened_file(
        &self,
        before: &CompoundHandler,
        request: OpenRequest,
        object: Fileid4,
        change: u64,
        fileid: Fileid4,
        made: bool,
        step: OpStep,
    ) -> bool {
        ||| fileid != ROOT_FILEID && gives_up(step, Nfs4Status::Stale) && *self == *before
        ||| exists|path: String|
            {
                &&& #[trigger] self.has_opened_at(
                    before,
                    request,
                    object,
                    change,
                    fileid,
                    made,
                    path,
                    step,
                )
                &&& before.fs.path_cache.path_of(fileid) == Some(path@)
            }
    }

    /// Opens a file.
    pub fn open_ex(
        &mut self,
        request: OpenRequest,
        object: Fileid4,
        change: u64,
        fileid: Fileid4,
        made: bool,
    ) -> (r: OpStep)
        requires
            old(self).wf(),
            old(self).can_open(),
        ensures
            final(self).wf(),
            final(self).has_opened_file(old(self), request, object, change, fileid, made, r),
    {
        let found = match self.fs.get_path(fileid) {
            Ok(p) => Some(p),
            Err(_) => None,
        };
        self.open_at(request, object, change, fileid, made, found)
    }

    /// Opens a file, with the path that was found for it.
    pub fn open_at(
        &mut self,
        request: OpenRequest,
        object: Fileid4,
        change: u64,
        fileid: Fileid4,
        made: bool,
        found: Option<String>,
    ) -> (r: OpStep)
        requires
            old(self).wf(),
            old(self).can_open(),
        ensures
            final(self).wf(),
            match found {
                None => gives_up(r, Nfs4Status::Stale) && *final(self) == *old(self),
                Some(path) => final(self).has_opened_at(
                    old(self),
                    request,
                    object,
                    change,
                    fileid,
                    made,
                    path,
                    r,
                ),
            },
    {
        let ghost before = *self;
        let path = match found {
            None => {
                return give_up(Nfs4Status::Stale);
            },
            Some(p) => p,
        };
        let head = request.head;
        let ghost p = path;
        let got = self.opens.open(
            head.clientid,
            head.owner,
            fileid,
            path,
            head.share_access,
            head.share_deny,
        );
        assert(self.opens.has_opened(
            &before.opens,
            request.head.clientid,
            request.head.owner,
            fileid,
            p,
            request.head.share_access,
            request.head.share_deny,
            got,
        ));
        match got {
            Err(e) => pass_on(e),
            Ok((stateid, new)) => {
                let opened = Opened {
                    clientid: head.clientid,
                    share_access: head.share_access,
                    object,
                    before: change,
                    fileid,
                    made,
                    stateid,
                };
                let call = if new {
                    FsCall::Open { fileid, access: head.share_access }
                } else {
                    FsCall::Reopen { fileid, access: head.share_access, add_ref: true }
                };
                OpStep::Call { task: OpTask::Open(Opening::Opened { opened }), call }
            },
        }
    }

    /// What opening comes to once nothing is in the way.
    pub open spec fn has_gone_to_open(
        &self,
        before: &CompoundHandler,
        request: OpenRequest,
        dir: Fileid4,
        object: Fileid4,
        change: u64,
        step: OpStep,
    ) -> bool {
        let head = request.head;
        match request.claim {
            OpenClaim::Previous => match before.opens.noted(
                head.clientid,
                object,
                head.owner@,
            ) {
                None => gives_up(step, Nfs4Status::ReclaimBad) && *self == *before,
                Some(k) => {
                    let s = before.opens.states@[k];
                    &&& self.same_but_opens(before)
                    &&& self.opens.has_replaced(
                        &before.opens,
                        k,
                        OpenState { confirmed: true, ..s },
                    )
                    &&& step == (OpStep::Call {
                        task: OpTask::Open(
                            Opening::Opened {
                                opened: Opened {
                                    clientid: head.clientid,
                                    share_access: head.share_access,
                                    object,
                                    before: change,
                                    fileid: object,
                                    made: false,
                                    stateid: s.stateid,
                                },
                            },
                        ),
                        call: FsCall::Reopen {
                            fileid: object,
                            access: s.share_access | head.share_access,
                            add_ref: true,
                        },
                    })
                },
            },
            OpenClaim::Null(name) => {
                &&& *self == *before
                &&& if head.opentype == 1 {
                    &&& step is Call
                    &&& step->task == OpTask::Open(
                        Opening::Making { request, object, before: change },
                    )
                    &&& step->call is CreateFile
                    &&& step->call->CreateFile_parent == dir
                    &&& step->call->CreateFile_name@ == lossy_text(name@)
                } else {
                    looks_up(
                        step,
                        OpTask::Open(Opening::Finding { request, object, before: change }),
                        dir,
                        lossy_text(name@),
                    )
                }
            },
            _ => self.has_opened_file(before, request, object, change, object, false, step),
        }
    }

    /// Goes on to open a file that nothing is in the way of.
    fn open_now(&mut self, request: OpenRequest, dir: Fileid4, object: Fileid4, change: u64) -> (r:
        OpStep)
        requires
            old(self).wf(),
            old(self).can_open(),
        ensures
            final(self).wf(),
            final(self).has_gone_to_open(old(self), request, dir, object, change, r),
    {
        let ghost before = *self;
        match &request.claim {
            OpenClaim::Previous => {
                let (stateid, access) = match self.opens.find_state(
                    request.head.clientid,
                    object,
                    request.head.owner.as_slice(),
                ) {
                    None => {
                        return give_up(Nfs4Status::ReclaimBad);
                    },
                    Some(s) => (s.stateid, s.get_access()),
                };
                let ghost k = before.opens.noted(
                    request.head.clientid,
                    object,
                    request.head.owner@,
                )->Some_0;
                assert(before.opens.note_ok(
                    open_key(request.head.clientid, object, request.head.owner@),
                ));
                assert(key12(stateid.other@) == k);
                let _ = self.opens.confirm(&stateid);
                OpStep::Call {
                    task: OpTask::Open(
                        Opening::Opened {
                            opened: Opened {
                                clientid: request.head.clientid,
                                share_access: request.head.share_access,
                                object,
                                before: change,
                                fileid: object,
                                made: false,
                                stateid,
                            },
                        },
                    ),
                    call: FsCall::Reopen {
                        fileid: object,
                        access: access | request.head.share_access,
                        add_ref: true,
                    },
                }
            },
            OpenClaim::Null(name) => {
                let name = text_of(name.as_slice());
                if request.head.opentype == 1 {
                    OpStep::Call {
                        task: OpTask::Open(Opening::Making { request, object, before: change }),
                        call: FsCall::CreateFile { parent: dir, name },
                    }
                } else {
                    look_up(
                        OpTask::Open(Opening::Finding { request, object, before: change }),
                        dir,
                        name,
                    )
                }
            },
            _ => self.open_ex(request, object, change, object, false),
        }
    }

    /// What seeing to it that no delegation is in the way comes to: it is recalled, and the client
    /// has to come again. Where there is no place for another callback, it is waited for one once.
    pub open spec fn has_made_way(
        &self,
        before: &CompoundHandler,
        request: OpenRequest,
        dir: Fileid4,
        object: Fileid4,
        change: u64,
        file: Option<Fileid4>,
        waited: bool,
        step: OpStep,
    ) -> bool {
        let head = request.head;
        if file is Some && before.delegations.in_the_way(
            head.clientid,
            file->Some_0,
            head.share_access & SHARE_WRITE != 0,
        ) {
            let f = file->Some_0;
            &&& *self == CompoundHandler {
                delegations: self.delegations,
                backchannel: self.backchannel,
                ..*before
            }
            &&& exists|now: Duration, fh: Nfs4FileHandle, got: Nfs4Result<Option<Outbound>>|
                {
                    &&& #[trigger] self.delegations.has_recalled(
                        &before.delegations,
                        now,
                        f,
                        fh,
                        false,
                        &before.backchannel,
                        &self.backchannel,
                        got,
                    )
                    &&& fh@ == handle_of(before.fs.config.cluster_generation, f)
                    &&& match got {
                        Err(e) => if e.status == Nfs4Status::BackChanBusy && !waited {
                            step == (OpStep::Wait {
                                later: OpTask::Open(
                                    Opening::Waited { request, dir, object, before: change, file },
                                ),
                            })
                        } else {
                            step == (OpStep::Done { result: Err(e) })
                        },
                        Ok(None) => gives_up(step, Nfs4Status::Delay),
                        Ok(Some(message)) => step == (OpStep::Send { message }),
                    }
                }
        } else {
            self.has_gone_to_open(before, request, dir, object, change, step)
        }
    }

    /// Goes on to open a file, if no delegation is in the way.
    pub fn make_way(
        &mut self,
        request: OpenRequest,
        dir: Fileid4,
        object: Fileid4,
        change: u64,
        file: Option<Fileid4>,
        waited: bool,
    ) -> (r: OpStep)
        requires
            old(self).wf(),
            old(self).can_open(),
        ensures
            final(self).wf(),
            final(self).has_made_way(
                old(self),
                request,
                dir,
                object,
                change,
                file,
                waited,
                r,
            ),
    {
        let ghost before = *self;
        if let Some(f) = file {
            let fh = self.fs.fileid_to_fh(f);
            let ghost g = fh;
            let checked = self.delegations.check_and_recall_if_needed(
                &mut self.backchannel,
                request.head.clientid,
                f,
                request.head.share_access & SHARE_WRITE != 0,
                fh,
            );
            proof {
                if before.delegations.in_the_way(
                    request.head.clientid,
                    f,
                    request.head.share_access & SHARE_WRITE != 0,
                ) {
                    let now = choose|now: Duration| #[trigger]
                        self.delegations.has_recalled(
                            &before.delegations,
                            now,
                            f,
                            g,
                            false,
                            &before.backchannel,
                            &self.backchannel,
                            recalled(checked),
                        );
                    assert(self.delegations.has_recalled(
                        &before.delegations,
                        now,
                        f,
                        g,
                        false,
                        &before.backchannel,
                        &self.backchannel,
                        recalled(checked),
                    ));
                }
            }
            match checked {
                Err(e) => {
                    if e.status == Nfs4Status::BackChanBusy && !waited {
                        return OpStep::Wait {
                            later: OpTask::Open(
                                Opening::Waited { request, dir, object, before: change, file },
                            ),
                        };
                    }
                    return pass_on(e);
                },
                Ok((true, Some(message))) => {
                    return OpStep::Send { message };
                },
                Ok((true, None)) => {
                    return give_up(Nfs4Status::Delay);
                },
                Ok((false, _)) => {
                    assert(*self == before);
                },
            }
        }
        self.open_now(request, dir, object, change)
    }

    /// How the directory is before is known. Whether a delegation is in the way is seen by the
    /// file, which may have to be looked for first; one who claims a delegation is not in its own
    /// way.
    pub open spec fn open_before_step(
        &self,
        before: &CompoundHandler,
        request: OpenRequest,
        dir: Fileid4,
        object: Fileid4,
        answer: Nfs4Result<FsAnswer>,
        step: OpStep,
    ) -> bool {
        match answer {
            Ok(FsAnswer::Status(s)) => match request.claim {
                OpenClaim::Null(name) => *self == *before && looks_up(
                    step,
                    OpTask::Open(
                        Opening::Conflict { request, dir, object, before: change_of(s) },
                    ),
                    dir,
                    lossy_text(name@),
                ),
                OpenClaim::DelegCur { .. } => self.has_gone_to_open(
                    before,
                    request,
                    dir,
                    object,
                    change_of(s),
                    step,
                ),
                OpenClaim::DelegCurFh(_) => self.has_gone_to_open(
                    before,
                    request,
                    dir,
                    object,
                    change_of(s),
                    step,
                ),
                _ => self.has_made_way(
                    before,
                    request,
                    dir,
                    object,
                    change_of(s),
                    Some(object),
                    false,
                    step,
                ),
            },
            _ => stops(answer, step) && *self == *before,
        }
    }

    /// How the directory is before is known. Whether a delegation is in the way is seen by the
    /// file, which may have to be looked for first; one who claims a delegation is not in its own
    /// way.
    pub fn open_before(
        &mut self,
        request: OpenRequest,
        dir: Fileid4,
        object: Fileid4,
        answer: Nfs4Result<FsAnswer>,
    ) -> (r: OpStep)
        requires
            old(self).wf(),
            old(self).can_open(),
        ensures
            final(self).wf(),
            final(self).open_before_step(old(self), request, dir, object, answer, r),
    {
        let change: u64 = match answer {
            Ok(FsAnswer::Status(s)) => change_number(&s),
            _ => {
                return stop(answer);
            },
        };
        match &request.claim {
            OpenClaim::Null(name) => {
                let name = text_of(name.as_slice());
                look_up(
                    OpTask::Open(Opening::Conflict { request, dir, object, before: change }),
                    dir,
                    name,
                )
            },
            OpenClaim::DelegCur { .. } => self.open_now(request, dir, object, change),
            OpenClaim::DelegCurFh(_) => self.open_now(request, dir, object, change),
            _ => self.make_way(request, dir, object, change, Some(object), false),
        }
    }

    /// The file was found, or it is not there: then no delegation is in the way.
    pub fn open_conflict(
        &mut self,
        request: OpenRequest,
        dir: Fileid4,
        object: Fileid4,
        change: u64,
        answer: Nfs4Result<FsAnswer>,
    ) -> (r: OpStep)
        requires
            old(self).wf(),
            old(self).can_open(),
        ensures
            final(self).wf(),
            final(self).has_made_way(
                old(self),
                request,
                dir,
                object,
                change,
                match answer {
                    Ok(FsAnswer::Found { fileid, .. }) => Some(fileid),
                    _ => None,
                },
                false,
                r,
            ),
    {
        let file = match answer {
            Ok(FsAnswer::Found { fileid, .. }) => Some(fileid),
            _ => None,
        };
        self.make_way(request, dir, object, change, file, false)
    }

    /// The attributes that a new file gets: those that are given, and where no owner is, the one
    /// who asks.
    pub open spec fn new_file_attrs(ctx: CompoundContext, attrs: Option<SetAttrs>) -> SetAttrs {
        let given = match attrs {
            Some(a) => a,
            None => SetAttrs::nothing(),
        };
        SetAttrs {
            uid: if given.uid is Some {
                given.uid
            } else {
                Some(ctx.auth.uid)
            },
            gid: if given.gid is Some {
                given.gid
            } else {
                Some(ctx.auth.gid)
            },
            ..given
        }
    }

    /// The file was made.
    pub open spec fn open_making_step(
        ctx: CompoundContext,
        request: OpenRequest,
        object: Fileid4,
        change: u64,
        answer: Nfs4Result<FsAnswer>,
        step: OpStep,
    ) -> bool {
        match answer {
            Ok(FsAnswer::Found { fileid, .. }) => {
                &&& step is Call
                &&& step->task is Open
                &&& step->task->Open_0 is Setting
                &&& step->task->Open_0->Setting_request == request
                &&& step->task->Open_0->Setting_object == object
                &&& step->task->Open_0->Setting_before == change
                &&& step->task->Open_0->fileid == fileid
                &&& step->call == (FsCall::Setattr {
                    fileid,
                    set: Self::new_file_attrs(ctx, request.attrs),
                })
            },
            _ => stops(answer, step),
        }
    }

    /// The file was made.
    pub fn open_making(
        ctx: &CompoundContext,
        request: OpenRequest,
        object: Fileid4,
        change: u64,
        answer: Nfs4Result<FsAnswer>,
    ) -> (r: OpStep)
        ensures
            Self::open_making_step(*ctx, request, object, change, answer, r),
    {
        match answer {
            Ok(FsAnswer::Found { fileid, .. }) => {
                let mut set = match &request.attrs {
                    Some(a) => SetAttrs {
                        mode: a.mode,
                        uid: a.uid,
                        gid: a.gid,
                        size: a.size,
                        atime: a.atime,
                        mtime: a.mtime,
                    },
                    None => SetAttrs::none(),
                };
                if set.uid.is_none() {
                    set.uid = Some(ctx.auth.uid);
                }
                if set.gid.is_none() {
                    set.gid = Some(ctx.auth.gid);
                }
                OpStep::Call {
                    task: OpTask::Open(
                        Opening::Setting { request, object, before: change, fileid },
                    ),
                    call: FsCall::Setattr { fileid, set },
                }
            },
            _ => stop(answer),
        }
    }

    /// The attributes of the new file are set.
    pub open spec fn open_setting_step(
        &self,
        before: &CompoundHandler,
        request: OpenRequest,
        object: Fileid4,
        change: u64,
        fileid: Fileid4,
        answer: Nfs4Result<FsAnswer>,
        step: OpStep,
    ) -> bool {
        match answer {
            Ok(_) => self.has_opened_file(
                before,
                request,
                object,
                change,
                fileid,
                true,
                step,
            ),
            Err(_) => stops(answer, step) && *self == *before,
        }
    }

    /// The attributes of the new file are set.
    pub fn open_setting(
        &mut self,
        request: OpenRequest,
        object: Fileid4,
        change: u64,
        fileid: Fileid4,
        answer: Nfs4Result<FsAnswer>,
    ) -> (r: OpStep)
        requires
            old(self).wf(),
            old(self).can_open(),
        ensures
            final(self).wf(),
            final(self).open_setting_step(old(self), request, object, change, fileid, answer, r),
    {
        if answer.is_err() {
            return stop(answer);
        }
        self.open_ex(request, object, change, fileid, true)
    }

    /// The file was found.
    pub open spec fn open_finding_step(
        &self,
        before: &CompoundHandler,
        request: OpenRequest,
        object: Fileid4,
        change: u64,
        answer: Nfs4Result<FsAnswer>,
        step: OpStep,
    ) -> bool {
        match answer {
            Ok(FsAnswer::Found { fileid, .. }) => self.has_opened_file(
                before,
                request,
                object,
                change,
                fileid,
                false,
                step,
            ),
            _ => stops(answer, step) && *self == *before,
        }
    }

    /// The file was found.
    pub fn open_finding(
        &mut self,
        request: OpenRequest,
        object: Fileid4,
        change: u64,
        answer: Nfs4Result<FsAnswer>,
    ) -> (r: OpStep)
        requires
            old(self).wf(),
            old(self).can_open(),
        ensures
            final(self).wf(),
            final(self).open_finding_step(old(self), request, object, change, answer, r),
    {
        match answer {
            Ok(FsAnswer::Found { fileid, .. }) => self.open_ex(
                request,
                object,
                change,
                fileid,
                false,
            ),
            _ => stop(answer),
        }
    }

    /// What it comes to that the storage has opened the file: the request goes on there, and the
    /// state has changed once more. A state that has gone meanwhile is a failure.
    pub open spec fn has_been_opened(
        &self,
        before: &CompoundHandler,
        ctx: CompoundContext,
        ctx2: CompoundContext,
        o: Opened,
        step: OpStep,
    ) -> bool {
        let k = key12(o.stateid.other@);
        if before.opens.states@.contains_key(k) {
            let s = before.opens.states@[k];
            let sid = Stateid4 { seqid: s.seqid.wrapping_add(1), other: s.stateid.other };
            &&& self.same_but_opens(before)
            &&& self.opens.has_replaced(&before.opens, k, s.counting())
            &&& ctx2.current_fh is Some
            &&& ctx2.current_fh->Some_0@ == handle_of(
                before.fs.config.cluster_generation,
                s.fileid,
            )
            &&& ctx2 == CompoundContext {
                current_fh: ctx2.current_fh,
                current_stateid: Some(sid),
                ..ctx
            }
            &&& step is Call
            &&& step->task is Open
            &&& step->task->Open_0 is After
            &&& step->task->Open_0->After_opened == o
            &&& step->task->Open_0->After_out@ == sid.encoding()
            &&& step->call == (FsCall::Status { fileid: o.object })
        } else {
            gives_up(step, Nfs4Status::BadStateid) && *self == *before && ctx2 == ctx
        }
    }

    /// The storage has opened the file.
    pub open spec fn open_opened_step(
        &self,
        before: &CompoundHandler,
        ctx: CompoundContext,
        ctx2: CompoundContext,
        o: Opened,
        answer: Nfs4Result<FsAnswer>,
        step: OpStep,
    ) -> bool {
        match answer {
            Ok(_) => self.has_been_opened(before, ctx, ctx2, o, step),
            Err(_) => stops(answer, step) && *self == *before && ctx2 == ctx,
        }
    }

    /// The storage has opened the file.
    pub fn open_opened(
        &mut self,
        ctx: &mut CompoundContext,
        o: Opened,
        answer: Nfs4Result<FsAnswer>,
    ) -> (r: OpStep)
        requires
            old(self).wf(),
        ensures
            final(self).wf(),
            final(self).open_opened_step(old(self), *old(ctx), *final(ctx), o, answer, r),
    {
        if answer.is_err() {
            return stop(answer);
        }
        let ghost before = *self;
        let fileid = match self.opens.states.get(&crate::bytes::key_of12(&o.stateid.other)) {
            None => {
                return give_up(Nfs4Status::BadStateid);
            },
            Some(s) => s.fileid,
        };
        let sid = match self.opens.count_change(&o.stateid, false) {
            None => {
                return give_up(Nfs4Status::BadStateid);
            },
            Some(sid) => sid,
        };
        ctx.current_fh = Some(self.fs.fileid_to_fh(fileid));
        ctx.current_stateid = Some(sid);
        let mut out: Vec<u8> = Vec::new();
        let _ = sid.serialize(&mut out);
        assert(out@ =~= sid.encoding());
        fetch(OpTask::Open(Opening::After { opened: o, out }), o.object)
    }

    /// What a client is told behind the stateid: how the directory has changed, whether it has to
    /// confirm, and that locks are those of POSIX.
    pub open spec fn opened_bytes(&self, ctx: CompoundContext, o: Opened, after: u64) -> Seq<u8> {
        let k = key12(o.stateid.other@);
        let ask = ctx.minor_version == 0 && self.opens.states@.contains_key(k)
            && !self.opens.states@[k].confirmed;
        change_bytes(o.before, after) + be32(
            if ask {
                6u32
            } else {
                4u32
            },
        ) + be32(0)
    }

    /// What it comes to that a client has opened a file: where there are sessions, nothing needs
    /// to be confirmed.
    pub open spec fn has_confirmed_open(
        &self,
        before: &CompoundHandler,
        ctx: CompoundContext,
        o: Opened,
    ) -> bool {
        let k = key12(o.stateid.other@);
        &&& self.same_but_opens(before)
        &&& if ctx.minor_version == 0 {
            self.opens == before.opens
        } else if before.opens.states@.contains_key(k) {
            self.opens.has_replaced(
                &before.opens,
                k,
                OpenState { confirmed: true, ..before.opens.states@[k] },
            )
        } else {
            &&& self.opens.states@ == before.opens.states@
            &&& self.opens.file_owner_state == before.opens.file_owner_state
            &&& self.opens.same_rest(&before.opens)
        }
    }

    /// What the end of opening comes to: a client may get a delegation of a file that was there.
    pub open spec fn has_ended_open(
        &self,
        before: &CompoundHandler,
        o: Opened,
        out: Seq<u8>,
        may: bool,
        step: OpStep,
    ) -> bool {
        if o.made || !may {
            *self == *before && answers_with(step, out + open_delegation_bytes(None))
        } else {
            &&& *self == CompoundHandler { delegations: self.delegations, ..*before }
            &&& exists|now: Duration, got: Option<Delegation>|
                {
                    &&& #[trigger] self.delegations.has_granted(
                        &before.delegations,
                        now,
                        o.clientid,
                        o.fileid,
                        o.share_access,
                        got,
                    )
                    &&& answers_with(step, out + open_delegation_bytes(got))
                }
        }
    }

    /// Ends opening.
    fn open_end(&mut self, o: Opened, out: Vec<u8>, may: bool) -> (r: OpStep)
        requires
            old(self).wf(),
        ensures
            final(self).wf(),
            final(self).has_ended_open(old(self), o, out@, may, r),
    {
        let ghost before = *self;
        let mut all = out;
        let got = if o.made || !may {
            None
        } else {
            let got = self.delegations.try_grant(o.clientid, o.fileid, o.share_access);
            proof {
                let now = choose|now: Duration| #[trigger]
                    self.delegations.has_granted(
                        &before.delegations,
                        now,
                        o.clientid,
                        o.fileid,
                        o.share_access,
                        got,
                    );
                assert(self.delegations.has_granted(
                    &before.delegations,
                    now,
                    o.clientid,
                    o.fileid,
                    o.share_access,
                    got,
                ));
            }
            got
        };
        let bytes = encode_open_delegation(&got);
        put_bytes(&mut all, bytes.as_slice());
        answer_with(all)
    }

    /// How the directory is now is known. One who wants a delegation gets it only of a file, whose
    /// kind has to be fetched.
    pub open spec fn open_after_step(
        &self,
        before: &CompoundHandler,
        ctx: CompoundContext,
        o: Opened,
        out: Vec<u8>,
        answer: Nfs4Result<FsAnswer>,
        step: OpStep,
    ) -> bool {
        match answer {
            Ok(FsAnswer::Status(s)) => exists|mid: CompoundHandler|
                {
                    let all = out@ + before.opened_bytes(ctx, o, change_of(s));
                    &&& #[trigger] mid.has_confirmed_open(before, ctx, o)
                    &&& if !o.made && o.share_access & 0x0f00 != 0 {
                        &&& *self == mid
                        &&& step is Call
                        &&& step->task is Open
                        &&& step->task->Open_0 is Kind
                        &&& step->task->Open_0->Kind_opened == o
                        &&& step->task->Open_0->Kind_out@ == all
                        &&& step->call == (FsCall::Status { fileid: o.fileid })
                    } else {
                        self.has_ended_open(&mid, o, all, true, step)
                    }
                },
            _ => stops(answer, step) && *self == *before,
        }
    }

    /// How the directory is now is known. One who wants a delegation gets it only of a file, whose
    /// kind has to be fetched.
    pub fn open_after(
        &mut self,
        ctx: &CompoundContext,
        o: Opened,
        out: Vec<u8>,
        answer: Nfs4Result<FsAnswer>,
    ) -> (r: OpStep)
        requires
            old(self).wf(),
        ensures
            final(self).wf(),
            final(self).open_after_step(old(self), *ctx, o, out, answer, r),
    {
        let after: u64 = match answer {
            Ok(FsAnswer::Status(s)) => change_number(&s),
            _ => {
                return stop(answer);
            },
        };
        let ghost before = *self;
        let mut all = out;
        put_change(&mut all, o.before, after);
        let mut flags: u32 = 4;
        if ctx.minor_version == 0 {
            if let Some(s) = self.opens.states.get(&crate::bytes::key_of12(&o.stateid.other)) {
                if !s.is_confirmed() {
                    flags = 6;
                }
            }
        } else {
            let _ = self.opens.confirm(&o.stateid);
        }
        put_u32(&mut all, flags);
        put_u32(&mut all, 0);
        assert(all@ =~= out@ + before.opened_bytes(*ctx, o, after));
        assert(self.has_confirmed_open(&before, *ctx, o));
        if !o.made && o.share_access & 0x0f00 != 0 {
            return fetch(OpTask::Open(Opening::Kind { opened: o, out: all }), o.fileid);
        }
        self.open_end(o, all, true)
    }

    /// The kind of the file is known.
    pub open spec fn open_kind_step(
        &self,
        before: &CompoundHandler,
        o: Opened,
        out: Vec<u8>,
        answer: Nfs4Result<FsAnswer>,
        step: OpStep,
    ) -> bool {
        match answer {
            Ok(FsAnswer::Status(s)) => self.has_ended_open(
                before,
                o,
                out@,
                s.file_type == FileType::File,
                step,
            ),
            _ => stops(answer, step) && *self == *before,
        }
    }

    /// The kind of the file is known.
    pub fn open_kind(
        &mut self,
        o: Opened,
        out: Vec<u8>,
        answer: Nfs4Result<FsAnswer>,
    ) -> (r: OpStep)
        requires
            old(self).wf(),
        ensures
            final(self).wf(),
            final(self).open_kind_step(old(self), o, out, answer, r),
    {
        let may = match answer {
            Ok(FsAnswer::Status(s)) => s.file_type == FileType::File,
            _ => {
                return stop(answer);
            },
        };
        self.open_end(o, out, may)
    }
}

} // verus!
