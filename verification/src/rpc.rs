//! Remote procedure call messages (version 2).
//!
//! The names are those of the protocol's own definition.

use crate::bytes::{
    add_assoc, be32, be32_at, be32_round_trip, need, opaque, put_u32, skip_prefix, zeros, Reader,
    XdrError,
};
use crate::xdr::{after, rest, Decode, XDR};
use vstd::prelude::*;

verus! {

broadcast use {crate::bytes::skip_skip, crate::bytes::skip_nothing};

/// Why authentication failed.
#[derive(Copy, Clone, Debug, PartialEq, Eq, Structural)]
pub enum auth_stat {
    AUTH_BADCRED,
    AUTH_REJECTEDCRED,
    AUTH_BADVERF,
    AUTH_REJECTEDVERF,
    AUTH_TOOWEAK,
}

impl auth_stat {
    /// The number that stands for the value on the wire.
    pub open spec fn code_of(self) -> u32 {
        match self {
            auth_stat::AUTH_BADCRED => 1,
            auth_stat::AUTH_REJECTEDCRED => 2,
            auth_stat::AUTH_BADVERF => 3,
            auth_stat::AUTH_REJECTEDVERF => 4,
            auth_stat::AUTH_TOOWEAK => 5,
        }
    }

    /// The value that a number stands for; `AUTH_BADCRED` where it stands for none.
    pub open spec fn of_code(v: u32) -> Self {
        if v == 2 {
            auth_stat::AUTH_REJECTEDCRED
        } else if v == 3 {
            auth_stat::AUTH_BADVERF
        } else if v == 4 {
            auth_stat::AUTH_REJECTEDVERF
        } else if v == 5 {
            auth_stat::AUTH_TOOWEAK
        } else {
            auth_stat::AUTH_BADCRED
        }
    }

    /// The number that stands for the value on the wire.
    pub fn code(&self) -> (r: u32)
        ensures
            r == self.code_of(),
    {
        match self {
            auth_stat::AUTH_BADCRED => 1,
            auth_stat::AUTH_REJECTEDCRED => 2,
            auth_stat::AUTH_BADVERF => 3,
            auth_stat::AUTH_REJECTEDVERF => 4,
            auth_stat::AUTH_TOOWEAK => 5,
        }
    }

    /// The value that a number stands for.
    pub fn from_code(v: u32) -> (r: Self)
        ensures
            r == Self::of_code(v),
    {
        match v {
            2 => auth_stat::AUTH_REJECTEDCRED,
            3 => auth_stat::AUTH_BADVERF,
            4 => auth_stat::AUTH_REJECTEDVERF,
            5 => auth_stat::AUTH_TOOWEAK,
            _ => auth_stat::AUTH_BADCRED,
        }
    }
}

impl Decode for auth_stat {
    open spec fn decoded_len(s: Seq<u8>) -> Result<nat, XdrError> {
        need(s, 4)
    }

    open spec fn decodes_to(&self, s: Seq<u8>) -> bool {
        *self == auth_stat::of_code(be32_at(s))
    }

    fn decode(src: &mut Reader<'_>) -> (r: Result<Self, XdrError>) {
        let v: u32 = src.read_u32()?;
        Ok(auth_stat::from_code(v))
    }
}

impl XDR for auth_stat {
    open spec fn encodable(&self) -> bool {
        true
    }

    open spec fn encoding(&self) -> Seq<u8> {
        be32(self.code_of())
    }

    open spec fn readable(&self) -> bool {
        true
    }

    proof fn round_trip(&self, t: Seq<u8>) {
        be32_round_trip(self.code_of(), t);
    }

    fn serialize(&self, dest: &mut Vec<u8>) -> (r: Result<(), XdrError>) {
        put_u32(dest, self.code());
        Ok(())
    }
}

/// How a caller authenticates.
#[derive(Copy, Clone, Debug, PartialEq, Eq, Structural)]
pub enum auth_flavor {
    AUTH_NULL,
    AUTH_UNIX,
    AUTH_SHORT,
    AUTH_DES,
}

impl auth_flavor {
    /// The number that stands for the value on the wire.
    pub open spec fn code_of(self) -> u32 {
        match self {
            auth_flavor::AUTH_NULL => 0,
            auth_flavor::AUTH_UNIX => 1,
            auth_flavor::AUTH_SHORT => 2,
            auth_flavor::AUTH_DES => 3,
        }
    }

    /// The value that a number stands for; `AUTH_NULL` where it stands for none.
    pub open spec fn of_code(v: u32) -> Self {
        if v == 1 {
            auth_flavor::AUTH_UNIX
        } else if v == 2 {
            auth_flavor::AUTH_SHORT
        } else if v == 3 {
            auth_flavor::AUTH_DES
        } else {
            auth_flavor::AUTH_NULL
        }
    }

    /// The number that stands for the value on the wire.
    pub fn code(&self) -> (r: u32)
        ensures
            r == self.code_of(),
    {
        match self {
            auth_flavor::AUTH_NULL => 0,
            auth_flavor::AUTH_UNIX => 1,
            auth_flavor::AUTH_SHORT => 2,
            auth_flavor::AUTH_DES => 3,
        }
    }

    /// The value that a number stands for.
    pub fn from_code(v: u32) -> (r: Self)
        ensures
            r == Self::of_code(v),
    {
        match v {
            1 => auth_flavor::AUTH_UNIX,
            2 => auth_flavor::AUTH_SHORT,
            3 => auth_flavor::AUTH_DES,
            _ => auth_flavor::AUTH_NULL,
        }
    }
}

impl Decode for auth_flavor {
    open spec fn decoded_len(s: Seq<u8>) -> Result<nat, XdrError> {
        need(s, 4)
    }

    open spec fn decodes_to(&self, s: Seq<u8>) -> bool {
        *self == auth_flavor::of_code(be32_at(s))
    }

    fn decode(src: &mut Reader<'_>) -> (r: Result<Self, XdrError>) {
        let v: u32 = src.read_u32()?;
        Ok(auth_flavor::from_code(v))
    }
}

impl XDR for auth_flavor {
    open spec fn encodable(&self) -> bool {
        true
    }

    open spec fn encoding(&self) -> Seq<u8> {
        be32(self.code_of())
    }

    open spec fn readable(&self) -> bool {
        true
    }

    proof fn round_trip(&self, t: Seq<u8>) {
        be32_round_trip(self.code_of(), t);
    }

    fn serialize(&self, dest: &mut Vec<u8>) -> (r: Result<(), XdrError>) {
        put_u32(dest, self.code());
        Ok(())
    }
}

/// Credentials of a Unix caller.
#[derive(Clone, Debug)]
pub struct auth_unix {
    pub stamp: u32,
    pub machinename: Vec<u8>,
    pub uid: u32,
    pub gid: u32,
    pub gids: Vec<u32>,
}

impl Default for auth_unix {
    fn default() -> (r: Self)
        ensures
            r.stamp == 0,
            r.machinename@ == Seq::<u8>::empty(),
            r.uid == 0,
            r.gid == 0,
            r.gids@ == Seq::<u32>::empty(),
    {
        auth_unix { stamp: 0, machinename: Vec::new(), uid: 0, gid: 0, gids: Vec::new() }
    }
}

impl Decode for auth_unix {
    open spec fn decoded_len(s: Seq<u8>) -> Result<nat, XdrError> {
        let n = u32::decoded_len(s);
        let n = after::<Vec<u8>>(n, s);
        let n = after::<u32>(n, s);
        let n = after::<u32>(n, s);
        let n = after::<Vec<u32>>(n, s);
        n
    }

    open spec fn decodes_to(&self, s: Seq<u8>) -> bool {
        let n1 = u32::decoded_len(s);
        let n2 = after::<Vec<u8>>(n1, s);
        let n3 = after::<u32>(n2, s);
        let n4 = after::<u32>(n3, s);
        &&& self.stamp.decodes_to(s)
        &&& self.machinename.decodes_to(rest(n1, s))
        &&& self.uid.decodes_to(rest(n2, s))
        &&& self.gid.decodes_to(rest(n3, s))
        &&& self.gids.decodes_to(rest(n4, s))
    }

    fn decode(src: &mut Reader<'_>) -> (r: Result<Self, XdrError>) {
        let stamp: u32 = u32::decode(src)?;
        let machinename: Vec<u8> = Vec::<u8>::decode(src)?;
        let uid: u32 = u32::decode(src)?;
        let gid: u32 = u32::decode(src)?;
        let gids: Vec<u32> = Vec::<u32>::decode(src)?;
        Ok(auth_unix { stamp, machinename, uid, gid, gids })
    }
}

impl XDR for auth_unix {
    open spec fn encodable(&self) -> bool {
        &&& self.stamp.encodable()
        &&& self.machinename.encodable()
        &&& self.uid.encodable()
        &&& self.gid.encodable()
        &&& self.gids.encodable()
    }

    open spec fn encoding(&self) -> Seq<u8> {
        self.stamp.encoding() + self.machinename.encoding() + self.uid.encoding()
            + self.gid.encoding() + self.gids.encoding()
    }

    open spec fn readable(&self) -> bool {
        &&& self.stamp.readable()
        &&& self.machinename.readable()
        &&& self.uid.readable()
        &&& self.gid.readable()
        &&& self.gids.readable()
    }

    #[verifier::spinoff_prover]
    #[verifier::rlimit(60)]
    proof fn round_trip(&self, t: Seq<u8>) {
        let t4 = self.gids.encoding() + t;
        add_assoc(
            self.stamp.encoding() + self.machinename.encoding() + self.uid.encoding()
                + self.gid.encoding(),
            self.gids.encoding(),
            t,
        );
        skip_prefix(
            self.stamp.encoding() + self.machinename.encoding() + self.uid.encoding()
                + self.gid.encoding(),
            t4,
        );
        let t3 = self.gid.encoding() + t4;
        add_assoc(
            self.stamp.encoding() + self.machinename.encoding() + self.uid.encoding(),
            self.gid.encoding(),
            t4,
        );
        skip_prefix(self.stamp.encoding() + self.machinename.encoding() + self.uid.encoding(), t3);
        let t2 = self.uid.encoding() + t3;
        add_assoc(self.stamp.encoding() + self.machinename.encoding(), self.uid.encoding(), t3);
        skip_prefix(self.stamp.encoding() + self.machinename.encoding(), t2);
        let t1 = self.machinename.encoding() + t2;
        add_assoc(self.stamp.encoding(), self.machinename.encoding(), t2);
        skip_prefix(self.stamp.encoding(), t1);
        self.stamp.round_trip(t1);
        self.machinename.round_trip(t2);
        self.uid.round_trip(t3);
        self.gid.round_trip(t4);
        self.gids.round_trip(t);
    }

    fn serialize(&self, dest: &mut Vec<u8>) -> (r: Result<(), XdrError>) {
        self.stamp.serialize(dest)?;
        self.machinename.serialize(dest)?;
        self.uid.serialize(dest)?;
        self.gid.serialize(dest)?;
        self.gids.serialize(dest)?;
        proof {
            add_assoc(old(dest)@, self.stamp.encoding(), self.machinename.encoding());
            add_assoc(
                old(dest)@,
                self.stamp.encoding() + self.machinename.encoding(),
                self.uid.encoding(),
            );
            add_assoc(
                old(dest)@,
                self.stamp.encoding() + self.machinename.encoding() + self.uid.encoding(),
                self.gid.encoding(),
            );
            add_assoc(
                old(dest)@,
                self.stamp.encoding() + self.machinename.encoding() + self.uid.encoding()
                    + self.gid.encoding(),
                self.gids.encoding(),
            );
        }
        Ok(())
    }
}

/// Credentials or a verifier, with a body that depends on the flavor.
#[derive(Clone, Debug)]
pub struct opaque_auth {
    pub flavor: auth_flavor,
    pub body: Vec<u8>,
}

impl opaque_auth {
    /// No authentication at all.
    pub open spec fn is_null(&self) -> bool {
        self.flavor == auth_flavor::AUTH_NULL && self.body@ == Seq::<u8>::empty()
    }
}

impl Default for opaque_auth {
    fn default() -> (r: Self)
        ensures
            r.is_null(),
    {
        opaque_auth { flavor: auth_flavor::AUTH_NULL, body: Vec::new() }
    }
}

impl Decode for opaque_auth {
    open spec fn decoded_len(s: Seq<u8>) -> Result<nat, XdrError> {
        let n = auth_flavor::decoded_len(s);
        let n = after::<Vec<u8>>(n, s);
        n
    }

    open spec fn decodes_to(&self, s: Seq<u8>) -> bool {
        let n1 = auth_flavor::decoded_len(s);
        &&& self.flavor.decodes_to(s)
        &&& self.body.decodes_to(rest(n1, s))
    }

    fn decode(src: &mut Reader<'_>) -> (r: Result<Self, XdrError>) {
        let flavor: auth_flavor = auth_flavor::decode(src)?;
        let body: Vec<u8> = Vec::<u8>::decode(src)?;
        Ok(opaque_auth { flavor, body })
    }
}

impl XDR for opaque_auth {
    open spec fn encodable(&self) -> bool {
        &&& self.flavor.encodable()
        &&& self.body.encodable()
    }

    open spec fn encoding(&self) -> Seq<u8> {
        self.flavor.encoding() + self.body.encoding()
    }

    open spec fn readable(&self) -> bool {
        &&& self.flavor.readable()
        &&& self.body.readable()
    }

    proof fn round_trip(&self, t: Seq<u8>) {
        let t1 = self.body.encoding() + t;
        add_assoc(self.flavor.encoding(), self.body.encoding(), t);
        skip_prefix(self.flavor.encoding(), t1);
        self.flavor.round_trip(t1);
        self.body.round_trip(t);
    }

    fn serialize(&self, dest: &mut Vec<u8>) -> (r: Result<(), XdrError>) {
        self.flavor.serialize(dest)?;
        self.body.serialize(dest)?;
        proof {
            add_assoc(old(dest)@, self.flavor.encoding(), self.body.encoding());
        }
        Ok(())
    }
}

/// The versions that a server supports.
#[derive(Copy, Clone, Debug, PartialEq, Eq, Structural)]
pub struct mismatch_info {
    pub low: u32,
    pub high: u32,
}

impl Default for mismatch_info {
    fn default() -> (r: Self)
        ensures
            r.low == 0,
            r.high == 0,
    {
        mismatch_info { low: 0, high: 0 }
    }
}

impl Decode for mismatch_info {
    open spec fn decoded_len(s: Seq<u8>) -> Result<nat, XdrError> {
        let n = u32::decoded_len(s);
        let n = after::<u32>(n, s);
        n
    }

    open spec fn decodes_to(&self, s: Seq<u8>) -> bool {
        let n1 = u32::decoded_len(s);
        &&& self.low.decodes_to(s)
        &&& self.high.decodes_to(rest(n1, s))
    }

    fn decode(src: &mut Reader<'_>) -> (r: Result<Self, XdrError>) {
        let low: u32 = u32::decode(src)?;
        let high: u32 = u32::decode(src)?;
        Ok(mismatch_info { low, high })
    }
}

impl XDR for mismatch_info {
    open spec fn encodable(&self) -> bool {
        &&& self.low.encodable()
        &&& self.high.encodable()
    }

    open spec fn encoding(&self) -> Seq<u8> {
        self.low.encoding() + self.high.encoding()
    }

    open spec fn readable(&self) -> bool {
        &&& self.low.readable()
        &&& self.high.readable()
    }

    proof fn round_trip(&self, t: Seq<u8>) {
        let t1 = self.high.encoding() + t;
        add_assoc(self.low.encoding(), self.high.encoding(), t);
        skip_prefix(self.low.encoding(), t1);
        self.low.round_trip(t1);
        self.high.round_trip(t);
    }

    fn serialize(&self, dest: &mut Vec<u8>) -> (r: Result<(), XdrError>) {
        self.low.serialize(dest)?;
        self.high.serialize(dest)?;
        proof {
            add_assoc(old(dest)@, self.low.encoding(), self.high.encoding());
        }
        Ok(())
    }
}

/// How an accepted call went.
#[derive(Copy, Clone, Debug, PartialEq, Eq, Structural)]
pub enum accept_body {
    SUCCESS,
    PROG_UNAVAIL,
    PROG_MISMATCH(mismatch_info),
    PROC_UNAVAIL,
    GARBAGE_ARGS,
}

impl Decode for accept_body {
    open spec fn decoded_len(s: Seq<u8>) -> Result<nat, XdrError> {
        let n = u32::decoded_len(s);
        if n is Err {
            n
        } else if be32_at(s) == 0 {
            n
        } else if be32_at(s) == 1 {
            n
        } else if be32_at(s) == 2 {
            after::<mismatch_info>(n, s)
        } else if be32_at(s) == 3 {
            n
        } else {
            n
        }
    }

    open spec fn decodes_to(&self, s: Seq<u8>) -> bool {
        match self {
            accept_body::SUCCESS => be32_at(s) == 0,
            accept_body::PROG_UNAVAIL => be32_at(s) == 1,
            accept_body::PROG_MISMATCH(v) => be32_at(s) == 2 && v.decodes_to(s.skip(4)),
            accept_body::PROC_UNAVAIL => be32_at(s) == 3,
            accept_body::GARBAGE_ARGS => be32_at(s) != 0 && be32_at(s) != 1
                && be32_at(s) != 2 && be32_at(s) != 3,
        }
    }

    fn decode(src: &mut Reader<'_>) -> (r: Result<Self, XdrError>) {
        let c: u32 = src.read_u32()?;
        match c {
            0 => Ok(accept_body::SUCCESS),
            1 => Ok(accept_body::PROG_UNAVAIL),
            2 => Ok(accept_body::PROG_MISMATCH(mismatch_info::decode(src)?)),
            3 => Ok(accept_body::PROC_UNAVAIL),
            _ => Ok(accept_body::GARBAGE_ARGS),
        }
    }
}

impl XDR for accept_body {
    open spec fn encodable(&self) -> bool {
        match self {
            accept_body::SUCCESS => true,
            accept_body::PROG_UNAVAIL => true,
            accept_body::PROG_MISMATCH(v) => v.encodable(),
            accept_body::PROC_UNAVAIL => true,
            accept_body::GARBAGE_ARGS => true,
        }
    }

    open spec fn encoding(&self) -> Seq<u8> {
        match self {
            accept_body::SUCCESS => be32(0),
            accept_body::PROG_UNAVAIL => be32(1),
            accept_body::PROG_MISMATCH(v) => be32(2) + v.encoding(),
            accept_body::PROC_UNAVAIL => be32(3),
            accept_body::GARBAGE_ARGS => be32(4),
        }
    }

    open spec fn readable(&self) -> bool {
        match self {
            accept_body::SUCCESS => true,
            accept_body::PROG_UNAVAIL => true,
            accept_body::PROG_MISMATCH(v) => v.readable(),
            accept_body::PROC_UNAVAIL => true,
            accept_body::GARBAGE_ARGS => true,
        }
    }

    proof fn round_trip(&self, t: Seq<u8>) {
        match self {
            accept_body::SUCCESS => {
                be32_round_trip(0, t);
            },
            accept_body::PROG_UNAVAIL => {
                be32_round_trip(1, t);
            },
            accept_body::PROG_MISMATCH(v) => {
                be32_round_trip(2, v.encoding() + t);
                add_assoc(be32(2), v.encoding(), t);
                skip_prefix(be32(2), v.encoding() + t);
                v.round_trip(t);
            },
            accept_body::PROC_UNAVAIL => {
                be32_round_trip(3, t);
            },
            accept_body::GARBAGE_ARGS => {
                be32_round_trip(4, t);
            },
        }
    }

    fn serialize(&self, dest: &mut Vec<u8>) -> (r: Result<(), XdrError>) {
        match self {
            accept_body::SUCCESS => {
                put_u32(dest, 0);
            },
            accept_body::PROG_UNAVAIL => {
                put_u32(dest, 1);
            },
            accept_body::PROG_MISMATCH(v) => {
                put_u32(dest, 2);
                v.serialize(dest)?;
                proof {
                    add_assoc(old(dest)@, be32(2), v.encoding());
                }
            },
            accept_body::PROC_UNAVAIL => {
                put_u32(dest, 3);
            },
            accept_body::GARBAGE_ARGS => {
                put_u32(dest, 4);
            },
        }
        Ok(())
    }
}

impl Default for accept_body {
    fn default() -> (r: Self)
        ensures
            r == accept_body::SUCCESS,
    {
        accept_body::SUCCESS
    }
}

/// The reply to a call that was accepted.
#[derive(Clone, Debug)]
pub struct accepted_reply {
    pub verf: opaque_auth,
    pub reply_data: accept_body,
}

impl Default for accepted_reply {
    fn default() -> (r: Self)
        ensures
            r.verf.is_null(),
            r.reply_data == accept_body::SUCCESS,
    {
        accepted_reply { verf: opaque_auth::default(), reply_data: accept_body::SUCCESS }
    }
}

impl Decode for accepted_reply {
    open spec fn decoded_len(s: Seq<u8>) -> Result<nat, XdrError> {
        let n = opaque_auth::decoded_len(s);
        let n = after::<accept_body>(n, s);
        n
    }

    open spec fn decodes_to(&self, s: Seq<u8>) -> bool {
        let n1 = opaque_auth::decoded_len(s);
        &&& self.verf.decodes_to(s)
        &&& self.reply_data.decodes_to(rest(n1, s))
    }

    fn decode(src: &mut Reader<'_>) -> (r: Result<Self, XdrError>) {
        let verf: opaque_auth = opaque_auth::decode(src)?;
        let reply_data: accept_body = accept_body::decode(src)?;
        Ok(accepted_reply { verf, reply_data })
    }
}

impl XDR for accepted_reply {
    open spec fn encodable(&self) -> bool {
        &&& self.verf.encodable()
        &&& self.reply_data.encodable()
    }

    open spec fn encoding(&self) -> Seq<u8> {
        self.verf.encoding() + self.reply_data.encoding()
    }

    open spec fn readable(&self) -> bool {
        &&& self.verf.readable()
        &&& self.reply_data.readable()
    }

    proof fn round_trip(&self, t: Seq<u8>) {
        let t1 = self.reply_data.encoding() + t;
        add_assoc(self.verf.encoding(), self.reply_data.encoding(), t);
        skip_prefix(self.verf.encoding(), t1);
        self.verf.round_trip(t1);
        self.reply_data.round_trip(t);
    }

    fn serialize(&self, dest: &mut Vec<u8>) -> (r: Result<(), XdrError>) {
        self.verf.serialize(dest)?;
        self.reply_data.serialize(dest)?;
        proof {
            add_assoc(old(dest)@, self.verf.encoding(), self.reply_data.encoding());
        }
        Ok(())
    }
}

/// The reply to a call that was turned down.
#[derive(Clone, Copy, Debug, PartialEq, Eq, Structural)]
pub enum rejected_reply {
    RPC_MISMATCH(mismatch_info),
    AUTH_ERROR(auth_stat),
}

impl Decode for rejected_reply {
    open spec fn decoded_len(s: Seq<u8>) -> Result<nat, XdrError> {
        let n = u32::decoded_len(s);
        if n is Err {
            n
        } else if be32_at(s) == 0 {
            after::<mismatch_info>(n, s)
        } else {
            after::<auth_stat>(n, s)
        }
    }

    open spec fn decodes_to(&self, s: Seq<u8>) -> bool {
        match self {
            rejected_reply::RPC_MISMATCH(v) => be32_at(s) == 0 && v.decodes_to(s.skip(4)),
            rejected_reply::AUTH_ERROR(v) => be32_at(s) != 0 && v.decodes_to(s.skip(4)),
        }
    }

    fn decode(src: &mut Reader<'_>) -> (r: Result<Self, XdrError>) {
        let c: u32 = src.read_u32()?;
        match c {
            0 => Ok(rejected_reply::RPC_MISMATCH(mismatch_info::decode(src)?)),
            _ => Ok(rejected_reply::AUTH_ERROR(auth_stat::decode(src)?)),
        }
    }
}

impl XDR for rejected_reply {
    open spec fn encodable(&self) -> bool {
        match self {
            rejected_reply::RPC_MISMATCH(v) => v.encodable(),
            rejected_reply::AUTH_ERROR(v) => v.encodable(),
        }
    }

    open spec fn encoding(&self) -> Seq<u8> {
        match self {
            rejected_reply::RPC_MISMATCH(v) => be32(0) + v.encoding(),
            rejected_reply::AUTH_ERROR(v) => be32(1) + v.encoding(),
        }
    }

    open spec fn readable(&self) -> bool {
        match self {
            rejected_reply::RPC_MISMATCH(v) => v.readable(),
            rejected_reply::AUTH_ERROR(v) => v.readable(),
        }
    }

    proof fn round_trip(&self, t: Seq<u8>) {
        match self {
            rejected_reply::RPC_MISMATCH(v) => {
                be32_round_trip(0, v.encoding() + t);
                add_assoc(be32(0), v.encoding(), t);
                skip_prefix(be32(0), v.encoding() + t);
                v.round_trip(t);
            },
            rejected_reply::AUTH_ERROR(v) => {
                be32_round_trip(1, v.encoding() + t);
                add_assoc(be32(1), v.encoding(), t);
                skip_prefix(be32(1), v.encoding() + t);
                v.round_trip(t);
            },
        }
    }

    fn serialize(&self, dest: &mut Vec<u8>) -> (r: Result<(), XdrError>) {
        match self {
            rejected_reply::RPC_MISMATCH(v) => {
                put_u32(dest, 0);
                v.serialize(dest)?;
                proof {
                    add_assoc(old(dest)@, be32(0), v.encoding());
                }
            },
            rejected_reply::AUTH_ERROR(v) => {
                put_u32(dest, 1);
                v.serialize(dest)?;
                proof {
                    add_assoc(old(dest)@, be32(1), v.encoding());
                }
            },
        }
        Ok(())
    }
}

impl Default for rejected_reply {
    fn default() -> (r: Self)
        ensures
            r == rejected_reply::RPC_MISMATCH(mismatch_info { low: 0, high: 0 }),
    {
        rejected_reply::RPC_MISMATCH(mismatch_info::default())
    }
}

/// A reply.
#[derive(Clone, Debug)]
pub enum reply_body {
    MSG_ACCEPTED(accepted_reply),
    MSG_DENIED(rejected_reply),
}

impl Decode for reply_body {
    open spec fn decoded_len(s: Seq<u8>) -> Result<nat, XdrError> {
        let n = u32::decoded_len(s);
        if n is Err {
            n
        } else if be32_at(s) == 0 {
            after::<accepted_reply>(n, s)
        } else if be32_at(s) == 1 {
            after::<rejected_reply>(n, s)
        } else {
            Err(XdrError::InvalidData)
        }
    }

    open spec fn decodes_to(&self, s: Seq<u8>) -> bool {
        match self {
            reply_body::MSG_ACCEPTED(v) => be32_at(s) == 0 && v.decodes_to(s.skip(4)),
            reply_body::MSG_DENIED(v) => be32_at(s) == 1 && v.decodes_to(s.skip(4)),
        }
    }

    fn decode(src: &mut Reader<'_>) -> (r: Result<Self, XdrError>) {
        let c: u32 = src.read_u32()?;
        match c {
            0 => Ok(reply_body::MSG_ACCEPTED(accepted_reply::decode(src)?)),
            1 => Ok(reply_body::MSG_DENIED(rejected_reply::decode(src)?)),
            _ => Err(XdrError::InvalidData),
        }
    }
}

impl XDR for reply_body {
    open spec fn encodable(&self) -> bool {
        match self {
            reply_body::MSG_ACCEPTED(v) => v.encodable(),
            reply_body::MSG_DENIED(v) => v.encodable(),
        }
    }

    open spec fn encoding(&self) -> Seq<u8> {
        match self {
            reply_body::MSG_ACCEPTED(v) => be32(0) + v.encoding(),
            reply_body::MSG_DENIED(v) => be32(1) + v.encoding(),
        }
    }

    open spec fn readable(&self) -> bool {
        match self {
            reply_body::MSG_ACCEPTED(v) => v.readable(),
            reply_body::MSG_DENIED(v) => v.readable(),
        }
    }

    proof fn round_trip(&self, t: Seq<u8>) {
        match self {
            reply_body::MSG_ACCEPTED(v) => {
                be32_round_trip(0, v.encoding() + t);
                add_assoc(be32(0), v.encoding(), t);
                skip_prefix(be32(0), v.encoding() + t);
                v.round_trip(t);
            },
            reply_body::MSG_DENIED(v) => {
                be32_round_trip(1, v.encoding() + t);
                add_assoc(be32(1), v.encoding(), t);
                skip_prefix(be32(1), v.encoding() + t);
                v.round_trip(t);
            },
        }
    }

    fn serialize(&self, dest: &mut Vec<u8>) -> (r: Result<(), XdrError>) {
        match self {
            reply_body::MSG_ACCEPTED(v) => {
                put_u32(dest, 0);
                v.serialize(dest)?;
                proof {
                    add_assoc(old(dest)@, be32(0), v.encoding());
                }
            },
            reply_body::MSG_DENIED(v) => {
                put_u32(dest, 1);
                v.serialize(dest)?;
                proof {
                    add_assoc(old(dest)@, be32(1), v.encoding());
                }
            },
        }
        Ok(())
    }
}

impl Default for reply_body {
    fn default() -> (r: Self)
        ensures
            r.accepts_with(accept_body::SUCCESS),
    {
        reply_body::MSG_ACCEPTED(accepted_reply::default())
    }
}

impl reply_body {
    /// An accepted reply without a verifier that carries `data`.
    pub open spec fn accepts_with(&self, data: accept_body) -> bool {
        match self {
            reply_body::MSG_ACCEPTED(a) => a.verf.is_null() && a.reply_data == data,
            reply_body::MSG_DENIED(_) => false,
        }
    }
}

/// A call.
#[derive(Clone, Debug)]
pub struct call_body {
    pub rpcvers: u32,
    pub prog: u32,
    pub vers: u32,
    pub proc: u32,
    pub cred: opaque_auth,
    pub verf: opaque_auth,
}

impl call_body {
    /// All numbers are zero, and nobody is named.
    pub open spec fn is_blank(&self) -> bool {
        &&& self.rpcvers == 0
        &&& self.prog == 0
        &&& self.vers == 0
        &&& self.proc == 0
        &&& self.cred.is_null()
        &&& self.verf.is_null()
    }
}

impl Default for call_body {
    fn default() -> (r: Self)
        ensures
            r.is_blank(),
    {
        call_body {
            rpcvers: 0,
            prog: 0,
            vers: 0,
            proc: 0,
            cred: opaque_auth::default(),
            verf: opaque_auth::default(),
        }
    }
}

impl Decode for call_body {
    open spec fn decoded_len(s: Seq<u8>) -> Result<nat, XdrError> {
        let n = u32::decoded_len(s);
        let n = after::<u32>(n, s);
        let n = after::<u32>(n, s);
        let n = after::<u32>(n, s);
        let n = after::<opaque_auth>(n, s);
        let n = after::<opaque_auth>(n, s);
        n
    }

    open spec fn decodes_to(&self, s: Seq<u8>) -> bool {
        let n1 = u32::decoded_len(s);
        let n2 = after::<u32>(n1, s);
        let n3 = after::<u32>(n2, s);
        let n4 = after::<u32>(n3, s);
        let n5 = after::<opaque_auth>(n4, s);
        &&& self.rpcvers.decodes_to(s)
        &&& self.prog.decodes_to(rest(n1, s))
        &&& self.vers.decodes_to(rest(n2, s))
        &&& self.proc.decodes_to(rest(n3, s))
        &&& self.cred.decodes_to(rest(n4, s))
        &&& self.verf.decodes_to(rest(n5, s))
    }

    fn decode(src: &mut Reader<'_>) -> (r: Result<Self, XdrError>) {
        let rpcvers: u32 = u32::decode(src)?;
        let prog: u32 = u32::decode(src)?;
        let vers: u32 = u32::decode(src)?;
        let proc: u32 = u32::decode(src)?;
        let cred: opaque_auth = opaque_auth::decode(src)?;
        let verf: opaque_auth = opaque_auth::decode(src)?;
        Ok(call_body { rpcvers, prog, vers, proc, cred, verf })
    }
}

impl XDR for call_body {
    open spec fn encodable(&self) -> bool {
        &&& self.rpcvers.encodable()
        &&& self.prog.encodable()
        &&& self.vers.encodable()
        &&& self.proc.encodable()
        &&& self.cred.encodable()
        &&& self.verf.encodable()
    }

    open spec fn encoding(&self) -> Seq<u8> {
        self.rpcvers.encoding() + self.prog.encoding() + self.vers.encoding() + self.proc.encoding()
            + self.cred.encoding() + self.verf.encoding()
    }

    open spec fn readable(&self) -> bool {
        &&& self.rpcvers.readable()
        &&& self.prog.readable()
        &&& self.vers.readable()
        &&& self.proc.readable()
        &&& self.cred.readable()
        &&& self.verf.readable()
    }

    proof fn round_trip(&self, t: Seq<u8>) {
        let t5 = self.verf.encoding() + t;
        add_assoc(
            self.rpcvers.encoding() + self.prog.encoding() + self.vers.encoding()
                + self.proc.encoding() + self.cred.encoding(),
            self.verf.encoding(),
            t,
        );
        skip_prefix(
            self.rpcvers.encoding() + self.prog.encoding() + self.vers.encoding()
                + self.proc.encoding() + self.cred.encoding(),
            t5,
        );
        let t4 = self.cred.encoding() + t5;
        add_assoc(
            self.rpcvers.encoding() + self.prog.encoding() + self.vers.encoding()
                + self.proc.encoding(),
            self.cred.encoding(),
            t5,
        );
        skip_prefix(
            self.rpcvers.encoding() + self.prog.encoding() + self.vers.encoding()
                + self.proc.encoding(),
            t4,
        );
        let t3 = self.proc.encoding() + t4;
        add_assoc(
            self.rpcvers.encoding() + self.prog.encoding() + self.vers.encoding(),
            self.proc.encoding(),
            t4,
        );
        skip_prefix(self.rpcvers.encoding() + self.prog.encoding() + self.vers.encoding(), t3);
        let t2 = self.vers.encoding() + t3;
        add_assoc(self.rpcvers.encoding() + self.prog.encoding(), self.vers.encoding(), t3);
        skip_prefix(self.rpcvers.encoding() + self.prog.encoding(), t2);
        let t1 = self.prog.encoding() + t2;
        add_assoc(self.rpcvers.encoding(), self.prog.encoding(), t2);
        skip_prefix(self.rpcvers.encoding(), t1);
        self.rpcvers.round_trip(t1);
        self.prog.round_trip(t2);
        self.vers.round_trip(t3);
        self.proc.round_trip(t4);
        self.cred.round_trip(t5);
        self.verf.round_trip(t);
    }

    fn serialize(&self, dest: &mut Vec<u8>) -> (r: Result<(), XdrError>) {
        self.rpcvers.serialize(dest)?;
        self.prog.serialize(dest)?;
        self.vers.serialize(dest)?;
        self.proc.serialize(dest)?;
        self.cred.serialize(dest)?;
        self.verf.serialize(dest)?;
        proof {
            add_assoc(old(dest)@, self.rpcvers.encoding(), self.prog.encoding());
            add_assoc(
                old(dest)@,
                self.rpcvers.encoding() + self.prog.encoding(),
                self.vers.encoding(),
            );
            add_assoc(
                old(dest)@,
                self.rpcvers.encoding() + self.prog.encoding() + self.vers.encoding(),
                self.proc.encoding(),
            );
            add_assoc(
                old(dest)@,
                self.rpcvers.encoding() + self.prog.encoding() + self.vers.encoding()
                    + self.proc.encoding(),
                self.cred.encoding(),
            );
            add_assoc(
                old(dest)@,
                self.rpcvers.encoding() + self.prog.encoding() + self.vers.encoding()
                    + self.proc.encoding() + self.cred.encoding(),
                self.verf.encoding(),
            );
        }
        Ok(())
    }
}

/// A call or a reply.
#[derive(Clone, Debug)]
pub enum rpc_body {
    CALL(call_body),
    REPLY(reply_body),
}

impl Decode for rpc_body {
    open spec fn decoded_len(s: Seq<u8>) -> Result<nat, XdrError> {
        let n = u32::decoded_len(s);
        if n is Err {
            n
        } else if be32_at(s) == 0 {
            after::<call_body>(n, s)
        } else if be32_at(s) == 1 {
            after::<reply_body>(n, s)
        } else {
            Err(XdrError::InvalidData)
        }
    }

    open spec fn decodes_to(&self, s: Seq<u8>) -> bool {
        match self {
            rpc_body::CALL(v) => be32_at(s) == 0 && v.decodes_to(s.skip(4)),
            rpc_body::REPLY(v) => be32_at(s) == 1 && v.decodes_to(s.skip(4)),
        }
    }

    fn decode(src: &mut Reader<'_>) -> (r: Result<Self, XdrError>) {
        let c: u32 = src.read_u32()?;
        match c {
            0 => Ok(rpc_body::CALL(call_body::decode(src)?)),
            1 => Ok(rpc_body::REPLY(reply_body::decode(src)?)),
            _ => Err(XdrError::InvalidData),
        }
    }
}

impl XDR for rpc_body {
    open spec fn encodable(&self) -> bool {
        match self {
            rpc_body::CALL(v) => v.encodable(),
            rpc_body::REPLY(v) => v.encodable(),
        }
    }

    open spec fn encoding(&self) -> Seq<u8> {
        match self {
            rpc_body::CALL(v) => be32(0) + v.encoding(),
            rpc_body::REPLY(v) => be32(1) + v.encoding(),
        }
    }

    open spec fn readable(&self) -> bool {
        match self {
            rpc_body::CALL(v) => v.readable(),
            rpc_body::REPLY(v) => v.readable(),
        }
    }

    proof fn round_trip(&self, t: Seq<u8>) {
        match self {
            rpc_body::CALL(v) => {
                be32_round_trip(0, v.encoding() + t);
                add_assoc(be32(0), v.encoding(), t);
                skip_prefix(be32(0), v.encoding() + t);
                v.round_trip(t);
            },
            rpc_body::REPLY(v) => {
                be32_round_trip(1, v.encoding() + t);
                add_assoc(be32(1), v.encoding(), t);
                skip_prefix(be32(1), v.encoding() + t);
                v.round_trip(t);
            },
        }
    }

    fn serialize(&self, dest: &mut Vec<u8>) -> (r: Result<(), XdrError>) {
        match self {
            rpc_body::CALL(v) => {
                put_u32(dest, 0);
                v.serialize(dest)?;
                proof {
                    add_assoc(old(dest)@, be32(0), v.encoding());
                }
            },
            rpc_body::REPLY(v) => {
                put_u32(dest, 1);
                v.serialize(dest)?;
                proof {
                    add_assoc(old(dest)@, be32(1), v.encoding());
                }
            },
        }
        Ok(())
    }
}

impl Default for rpc_body {
    fn default() -> (r: Self)
        ensures
            r is CALL,
            r->CALL_0.is_blank(),
    {
        rpc_body::CALL(call_body::default())
    }
}

/// A message: a call or the reply to the call with the same `xid`.
#[derive(Clone, Debug)]
pub struct rpc_msg {
    pub xid: u32,
    pub body: rpc_body,
}

impl Default for rpc_msg {
    fn default() -> (r: Self)
        ensures
            r.xid == 0,
            r.body is CALL,
            r.body->CALL_0.is_blank(),
    {
        rpc_msg { xid: 0, body: rpc_body::default() }
    }
}

impl Decode for rpc_msg {
    open spec fn decoded_len(s: Seq<u8>) -> Result<nat, XdrError> {
        let n = u32::decoded_len(s);
        let n = after::<rpc_body>(n, s);
        n
    }

    open spec fn decodes_to(&self, s: Seq<u8>) -> bool {
        let n1 = u32::decoded_len(s);
        &&& self.xid.decodes_to(s)
        &&& self.body.decodes_to(rest(n1, s))
    }

    fn decode(src: &mut Reader<'_>) -> (r: Result<Self, XdrError>) {
        let xid: u32 = u32::decode(src)?;
        let body: rpc_body = rpc_body::decode(src)?;
        Ok(rpc_msg { xid, body })
    }
}

impl XDR for rpc_msg {
    open spec fn encodable(&self) -> bool {
        &&& self.xid.encodable()
        &&& self.body.encodable()
    }

    open spec fn encoding(&self) -> Seq<u8> {
        self.xid.encoding() + self.body.encoding()
    }

    open spec fn readable(&self) -> bool {
        &&& self.xid.readable()
        &&& self.body.readable()
    }

    proof fn round_trip(&self, t: Seq<u8>) {
        let t1 = self.body.encoding() + t;
        add_assoc(self.xid.encoding(), self.body.encoding(), t);
        skip_prefix(self.xid.encoding(), t1);
        self.xid.round_trip(t1);
        self.body.round_trip(t);
    }

    fn serialize(&self, dest: &mut Vec<u8>) -> (r: Result<(), XdrError>) {
        self.xid.serialize(dest)?;
        self.body.serialize(dest)?;
        proof {
            add_assoc(old(dest)@, self.xid.encoding(), self.body.encoding());
        }
        Ok(())
    }
}

// ---------------------------------------------------------------------------
// Replies
// ---------------------------------------------------------------------------

/// An accepted reply to `xid` without a verifier that carries `data`.
pub open spec fn accepted(m: rpc_msg, xid: u32, data: accept_body) -> bool {
    &&& m.xid == xid
    &&& match m.body {
        rpc_body::REPLY(r) => r.accepts_with(data),
        rpc_body::CALL(_) => false,
    }
}

/// The bytes of an accepted reply to `xid` that carries `data`.
pub open spec fn accepted_bytes(xid: u32, data: accept_body) -> Seq<u8> {
    be32(xid) + be32(1) + be32(0) + be32(0) + be32(0) + data.encoding()
}

/// An accepted reply is written as its header followed by what it carries.
pub proof fn accepted_encoding(m: rpc_msg, xid: u32, data: accept_body)
    requires
        accepted(m, xid, data),
    ensures
        m.encodable(),
        m.encoding() == accepted_bytes(xid, data),
{
    match m.body {
        rpc_body::REPLY(r) => match r {
            reply_body::MSG_ACCEPTED(a) => {
                assert(zeros(0) =~= Seq::<u8>::empty());
                assert(opaque(a.verf.body@) =~= be32(0));
                assert(m.encoding() =~= accepted_bytes(xid, data));
            },
            _ => {},
        },
        _ => {},
    }
}

fn accepted_reply_message(xid: u32, data: accept_body) -> (r: rpc_msg)
    ensures
        accepted(r, xid, data),
{
    rpc_msg {
        xid,
        body: rpc_body::REPLY(
            reply_body::MSG_ACCEPTED(
                accepted_reply { verf: opaque_auth::default(), reply_data: data },
            ),
        ),
    }
}

/// Appends the bytes of an accepted reply.
pub fn put_accepted(dest: &mut Vec<u8>, xid: u32, data: accept_body)
    ensures
        final(dest)@ == old(dest)@ + accepted_bytes(xid, data),
{
    let m = accepted_reply_message(xid, data);
    proof {
        accepted_encoding(m, xid, data);
    }
    let _ = m.serialize(dest);
}

/// The call went well; its results follow.
pub fn make_success_reply(xid: u32) -> (r: rpc_msg)
    ensures
        accepted(r, xid, accept_body::SUCCESS),
{
    accepted_reply_message(xid, accept_body::SUCCESS)
}

/// The program has no such procedure.
pub fn proc_unavail_reply_message(xid: u32) -> (r: rpc_msg)
    ensures
        accepted(r, xid, accept_body::PROC_UNAVAIL),
{
    accepted_reply_message(xid, accept_body::PROC_UNAVAIL)
}

/// There is no such program.
pub fn prog_unavail_reply_message(xid: u32) -> (r: rpc_msg)
    ensures
        accepted(r, xid, accept_body::PROG_UNAVAIL),
{
    accepted_reply_message(xid, accept_body::PROG_UNAVAIL)
}

/// The arguments could not be read.
pub fn garbage_args_reply_message(xid: u32) -> (r: rpc_msg)
    ensures
        accepted(r, xid, accept_body::GARBAGE_ARGS),
{
    accepted_reply_message(xid, accept_body::GARBAGE_ARGS)
}

/// The program is there, in the version `accepted_ver` alone.
pub fn prog_mismatch_reply_message(xid: u32, accepted_ver: u32) -> (r: rpc_msg)
    ensures
        accepted(
            r,
            xid,
            accept_body::PROG_MISMATCH(mismatch_info { low: accepted_ver, high: accepted_ver }),
        ),
{
    accepted_reply_message(
        xid,
        accept_body::PROG_MISMATCH(mismatch_info { low: accepted_ver, high: accepted_ver }),
    )
}

/// The message is not of a version of the protocol that is spoken here.
pub fn rpc_vers_mismatch(xid: u32) -> (r: rpc_msg)
    ensures
        r.xid == xid,
        r.body == rpc_body::REPLY(
            reply_body::MSG_DENIED(
                rejected_reply::RPC_MISMATCH(mismatch_info { low: 0, high: 0 }),
            ),
        ),
{
    rpc_msg {
        xid,
        body: rpc_body::REPLY(
            reply_body::MSG_DENIED(rejected_reply::RPC_MISMATCH(mismatch_info::default())),
        ),
    }
}

/// A reply is never read as a call, nor the other way round: what was written as a reply to
/// `xid` is read back as a reply to `xid`.
pub proof fn law_reply_reads_as_reply(m: rpc_msg, m2: rpc_msg)
    requires
        m.encodable(),
        m.readable(),
        m2.decodes_to(m.encoding()),
    ensures
        m2.xid == m.xid,
        m2.body is REPLY <==> m.body is REPLY,
{
    m.round_trip(Seq::empty());
    assert(m.encoding() + Seq::<u8>::empty() =~= m.encoding());
}

} // verus!
