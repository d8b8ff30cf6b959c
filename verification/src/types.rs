//! Basic types of the file protocol.

use crate::bytes::{
    add_assoc, be32, be32_at, be32_round_trip, bytes_eq, bytes_vec, need, opaque, put_opaque,
    put_u32, skip_prefix, Reader, XdrError,
};
use crate::time::{unix_time, Duration, NANOS_PER_SEC};
use crate::xdr::{after, opaque_at, opaque_len, opaque_round_trip, read_opaque, rest, Decode, XDR};
use vstd::prelude::*;

verus! {

broadcast use {crate::bytes::skip_skip, crate::bytes::skip_nothing};

pub type Fileid4 = u64;

pub type Offset4 = u64;

pub type Count4 = u32;

pub type Length4 = u64;

pub type Mode4 = u32;

pub type Bitmap4 = Vec<u32>;

pub type Verifier4 = [u8; 8];

pub type Sessionid4 = [u8; 16];

pub type Clientid4 = u64;

/// The largest file handle.
pub const MAX_FH_SIZE: usize = 128;

/// The file protocol's program number.
pub const NFS4_PROGRAM: u32 = 100003;

/// The version of the file protocol.
pub const NFS4_VERSION: u32 = 4;

/// The minor version of the file protocol.
pub const NFS4_MINOR_VERSION: u32 = 1;

/// The lease time that clients are told, in seconds.
pub const DEFAULT_LEASE_TIME: u32 = 90;

/// The most operations in a compound request.
pub const MAX_COMPOUND_OPS: usize = 64;

// ---------------------------------------------------------------------------
// File handles
// ---------------------------------------------------------------------------

/// What a client names a file by: bytes that only the server makes sense of.
#[derive(Debug)]
pub struct Nfs4FileHandle {
    pub data: Vec<u8>,
}

impl View for Nfs4FileHandle {
    type V = Seq<u8>;

    open spec fn view(&self) -> Seq<u8> {
        self.data@
    }
}

impl Clone for Nfs4FileHandle {
    fn clone(&self) -> (r: Self)
        ensures
            r@ == self@,
    {
        Nfs4FileHandle { data: bytes_vec(self.data.as_slice()) }
    }
}

impl Default for Nfs4FileHandle {
    fn default() -> (r: Self)
        ensures
            r@ == Seq::<u8>::empty(),
    {
        Nfs4FileHandle { data: Vec::new() }
    }
}

impl Nfs4FileHandle {
    /// A handle of the given bytes.
    pub fn new(data: Vec<u8>) -> (r: Self)
        ensures
            r@ == data@,
    {
        Nfs4FileHandle { data }
    }

    /// Whether there are no bytes in the handle.
    pub fn is_empty(&self) -> (r: bool)
        ensures
            r == (self@.len() == 0),
    {
        self.data.len() == 0
    }
}

impl PartialEq for Nfs4FileHandle {
    fn eq(&self, other: &Self) -> (r: bool) {
        bytes_eq(self.data.as_slice(), other.data.as_slice())
    }
}

impl vstd::std_specs::cmp::PartialEqSpecImpl for Nfs4FileHandle {
    open spec fn obeys_eq_spec() -> bool {
        true
    }

    open spec fn eq_spec(&self, other: &Self) -> bool {
        self@ == other@
    }
}

impl Decode for Nfs4FileHandle {
    open spec fn decoded_len(s: Seq<u8>) -> Result<nat, XdrError> {
        opaque_len(s, MAX_FH_SIZE as nat)
    }

    open spec fn decodes_to(&self, s: Seq<u8>) -> bool {
        self@ == opaque_at(s)
    }

    fn decode(src: &mut Reader<'_>) -> (r: Result<Self, XdrError>) {
        let data: Vec<u8> = read_opaque(src, MAX_FH_SIZE)?;
        Ok(Nfs4FileHandle { data })
    }
}

impl XDR for Nfs4FileHandle {
    open spec fn encodable(&self) -> bool {
        true
    }

    open spec fn encoding(&self) -> Seq<u8> {
        opaque(self@)
    }

    open spec fn readable(&self) -> bool {
        self@.len() <= MAX_FH_SIZE
    }

    proof fn round_trip(&self, t: Seq<u8>) {
        opaque_round_trip(self@, MAX_FH_SIZE as nat, t);
    }

    fn serialize(&self, dest: &mut Vec<u8>) -> (r: Result<(), XdrError>) {
        put_opaque(dest, self.data.as_slice());
        Ok(())
    }
}

// ---------------------------------------------------------------------------
// State ids
// ---------------------------------------------------------------------------

/// What an open, a lock, a delegation or a layout is named by. `other` tells it apart from all
/// others, and `seqid` counts its changes.
#[derive(Clone, Copy, Debug)]
pub struct Stateid4 {
    pub seqid: u32,
    pub other: [u8; 12],
}

impl Stateid4 {
    /// A state id of the given parts.
    pub fn new(seqid: u32, other: [u8; 12]) -> (r: Self)
        ensures
            r.seqid == seqid,
            r.other == other,
    {
        Stateid4 { seqid, other }
    }

    /// Whether the state id has the given parts.
    pub open spec fn is(&self, seqid: u32, other: Seq<u8>) -> bool {
        self.seqid == seqid && self.other@ == other
    }

    /// All bits zero: no state at all.
    pub open spec fn spec_anonymous(&self) -> bool {
        self.is(0, Seq::new(12, |i: int| 0u8))
    }

    /// A read that no lock stops.
    pub open spec fn spec_read_bypass(&self) -> bool {
        self.is(0, Seq::new(12, |i: int| 0xffu8))
    }

    /// The state id that the request has come to.
    pub open spec fn spec_current(&self) -> bool {
        self.is(1, Seq::new(12, |i: int| 0u8))
    }

    /// Whether the state id has a meaning of its own and names no state.
    pub open spec fn special(&self) -> bool {
        self.spec_anonymous() || self.spec_read_bypass() || self.spec_current()
    }

    /// The state id for no state.
    pub fn anonymous() -> (r: Self)
        ensures
            r.spec_anonymous(),
    {
        let r = Stateid4 { seqid: 0, other: [0;12] };
        assert(r.other@ =~= Seq::new(12, |i: int| 0u8));
        r
    }

    /// The state id for a read that no lock stops.
    pub fn read_bypass() -> (r: Self)
        ensures
            r.spec_read_bypass(),
    {
        let r = Stateid4 { seqid: 0, other: [0xff;12] };
        assert(r.other@ =~= Seq::new(12, |i: int| 0xffu8));
        r
    }

    /// The state id that the request has come to.
    pub fn current() -> (r: Self)
        ensures
            r.spec_current(),
    {
        let r = Stateid4 { seqid: 1, other: [0;12] };
        assert(r.other@ =~= Seq::new(12, |i: int| 0u8));
        r
    }

    /// Whether the state id is the one for no state.
    pub fn is_anonymous(&self) -> (r: bool)
        ensures
            r == self.spec_anonymous(),
    {
        *self == Stateid4::anonymous()
    }

    /// Whether the state id is the one for a read that no lock stops.
    pub fn is_read_bypass(&self) -> (r: bool)
        ensures
            r == self.spec_read_bypass(),
    {
        *self == Stateid4::read_bypass()
    }

    /// Whether the state id has a meaning of its own and names no state.
    pub fn is_special(&self) -> (r: bool)
        ensures
            r == self.special(),
    {
        *self == Stateid4::anonymous() || *self == Stateid4::read_bypass() || *self
            == Stateid4::current()
    }
}

impl Default for Stateid4 {
    fn default() -> (r: Self)
        ensures
            r.spec_anonymous(),
    {
        Stateid4::anonymous()
    }
}

impl PartialEq for Stateid4 {
    fn eq(&self, other: &Self) -> (r: bool) {
        self.seqid == other.seqid && bytes_eq(
            vstd::array::array_as_slice(&self.other),
            vstd::array::array_as_slice(&other.other),
        )
    }
}

impl vstd::std_specs::cmp::PartialEqSpecImpl for Stateid4 {
    open spec fn obeys_eq_spec() -> bool {
        true
    }

    open spec fn eq_spec(&self, other: &Self) -> bool {
        self.seqid == other.seqid && self.other@ == other.other@
    }
}

impl Decode for Stateid4 {
    open spec fn decoded_len(s: Seq<u8>) -> Result<nat, XdrError> {
        let n = u32::decoded_len(s);
        let n = after::<[u8; 12]>(n, s);
        n
    }

    open spec fn decodes_to(&self, s: Seq<u8>) -> bool {
        let n1 = u32::decoded_len(s);
        &&& self.seqid.decodes_to(s)
        &&& self.other.decodes_to(rest(n1, s))
    }

    fn decode(src: &mut Reader<'_>) -> (r: Result<Self, XdrError>) {
        let seqid: u32 = u32::decode(src)?;
        let other: [u8; 12] = <[u8; 12]>::decode(src)?;
        Ok(Stateid4 { seqid, other })
    }
}

impl XDR for Stateid4 {
    open spec fn encodable(&self) -> bool {
        &&& self.seqid.encodable()
        &&& self.other.encodable()
    }

    open spec fn encoding(&self) -> Seq<u8> {
        self.seqid.encoding() + self.other.encoding()
    }

    open spec fn readable(&self) -> bool {
        &&& self.seqid.readable()
        &&& self.other.readable()
    }

    proof fn round_trip(&self, t: Seq<u8>) {
        let t1 = self.other.encoding() + t;
        add_assoc(self.seqid.encoding(), self.other.encoding(), t);
        skip_prefix(self.seqid.encoding(), t1);
        self.seqid.round_trip(t1);
        self.other.round_trip(t);
    }

    fn serialize(&self, dest: &mut Vec<u8>) -> (r: Result<(), XdrError>) {
        self.seqid.serialize(dest)?;
        self.other.serialize(dest)?;
        proof {
            add_assoc(old(dest)@, self.seqid.encoding(), self.other.encoding());
        }
        Ok(())
    }
}

/// What a client calls itself, and a verifier that changes when it starts anew.
#[derive(Debug)]
pub struct ClientOwner4 {
    pub co_verifier: Verifier4,
    pub co_ownerid: Vec<u8>,
}

impl Clone for ClientOwner4 {
    fn clone(&self) -> (r: Self)
        ensures
            r.co_verifier == self.co_verifier,
            r.co_ownerid@ == self.co_ownerid@,
    {
        ClientOwner4 {
            co_verifier: self.co_verifier,
            co_ownerid: bytes_vec(self.co_ownerid.as_slice()),
        }
    }
}

impl Decode for ClientOwner4 {
    open spec fn decoded_len(s: Seq<u8>) -> Result<nat, XdrError> {
        let n = <[u8; 8]>::decoded_len(s);
        let n = after::<Vec<u8>>(n, s);
        n
    }

    open spec fn decodes_to(&self, s: Seq<u8>) -> bool {
        let n1 = <[u8; 8]>::decoded_len(s);
        &&& self.co_verifier.decodes_to(s)
        &&& self.co_ownerid.decodes_to(rest(n1, s))
    }

    fn decode(src: &mut Reader<'_>) -> (r: Result<Self, XdrError>) {
        let co_verifier: [u8; 8] = <[u8; 8]>::decode(src)?;
        let co_ownerid: Vec<u8> = Vec::<u8>::decode(src)?;
        Ok(ClientOwner4 { co_verifier, co_ownerid })
    }
}

impl XDR for ClientOwner4 {
    open spec fn encodable(&self) -> bool {
        &&& self.co_verifier.encodable()
        &&& self.co_ownerid.encodable()
    }

    open spec fn encoding(&self) -> Seq<u8> {
        self.co_verifier.encoding() + self.co_ownerid.encoding()
    }

    open spec fn readable(&self) -> bool {
        &&& self.co_verifier.readable()
        &&& self.co_ownerid.readable()
    }

    proof fn round_trip(&self, t: Seq<u8>) {
        let t1 = self.co_ownerid.encoding() + t;
        add_assoc(self.co_verifier.encoding(), self.co_ownerid.encoding(), t);
        skip_prefix(self.co_verifier.encoding(), t1);
        self.co_verifier.round_trip(t1);
        self.co_ownerid.round_trip(t);
    }

    fn serialize(&self, dest: &mut Vec<u8>) -> (r: Result<(), XdrError>) {
        self.co_verifier.serialize(dest)?;
        self.co_ownerid.serialize(dest)?;
        proof {
            add_assoc(old(dest)@, self.co_verifier.encoding(), self.co_ownerid.encoding());
        }
        Ok(())
    }
}

/// Who holds a lock: a client and what it calls its owner.
#[derive(Debug)]
pub struct LockOwner4 {
    pub clientid: Clientid4,
    pub owner: Vec<u8>,
}

impl LockOwner4 {
    /// Whether both name the same owner of the same client.
    pub open spec fn same(&self, other: &Self) -> bool {
        self.clientid == other.clientid && self.owner@ == other.owner@
    }
}

impl Clone for LockOwner4 {
    fn clone(&self) -> (r: Self)
        ensures
            r.same(self),
    {
        LockOwner4 { clientid: self.clientid, owner: bytes_vec(self.owner.as_slice()) }
    }
}

impl PartialEq for LockOwner4 {
    fn eq(&self, other: &Self) -> (r: bool) {
        self.clientid == other.clientid && bytes_eq(self.owner.as_slice(), other.owner.as_slice())
    }
}

impl vstd::std_specs::cmp::PartialEqSpecImpl for LockOwner4 {
    open spec fn obeys_eq_spec() -> bool {
        true
    }

    open spec fn eq_spec(&self, other: &Self) -> bool {
        self.same(other)
    }
}

impl Decode for LockOwner4 {
    open spec fn decoded_len(s: Seq<u8>) -> Result<nat, XdrError> {
        let n = u64::decoded_len(s);
        let n = after::<Vec<u8>>(n, s);
        n
    }

    open spec fn decodes_to(&self, s: Seq<u8>) -> bool {
        let n1 = u64::decoded_len(s);
        &&& self.clientid.decodes_to(s)
        &&& self.owner.decodes_to(rest(n1, s))
    }

    fn decode(src: &mut Reader<'_>) -> (r: Result<Self, XdrError>) {
        let clientid: u64 = u64::decode(src)?;
        let owner: Vec<u8> = Vec::<u8>::decode(src)?;
        Ok(LockOwner4 { clientid, owner })
    }
}

impl XDR for LockOwner4 {
    open spec fn encodable(&self) -> bool {
        &&& self.clientid.encodable()
        &&& self.owner.encodable()
    }

    open spec fn encoding(&self) -> Seq<u8> {
        self.clientid.encoding() + self.owner.encoding()
    }

    open spec fn readable(&self) -> bool {
        &&& self.clientid.readable()
        &&& self.owner.readable()
    }

    proof fn round_trip(&self, t: Seq<u8>) {
        let t1 = self.owner.encoding() + t;
        add_assoc(self.clientid.encoding(), self.owner.encoding(), t);
        skip_prefix(self.clientid.encoding(), t1);
        self.clientid.round_trip(t1);
        self.owner.round_trip(t);
    }

    fn serialize(&self, dest: &mut Vec<u8>) -> (r: Result<(), XdrError>) {
        self.clientid.serialize(dest)?;
        self.owner.serialize(dest)?;
        proof {
            add_assoc(old(dest)@, self.clientid.encoding(), self.owner.encoding());
        }
        Ok(())
    }
}

/// Who has opened a file: a client and what it calls its owner.
#[derive(Debug)]
pub struct OpenOwner4 {
    pub clientid: Clientid4,
    pub owner: Vec<u8>,
}

impl OpenOwner4 {
    /// Whether both name the same owner of the same client.
    pub open spec fn same(&self, other: &Self) -> bool {
        self.clientid == other.clientid && self.owner@ == other.owner@
    }
}

impl Clone for OpenOwner4 {
    fn clone(&self) -> (r: Self)
        ensures
            r.same(self),
    {
        OpenOwner4 { clientid: self.clientid, owner: bytes_vec(self.owner.as_slice()) }
    }
}

impl PartialEq for OpenOwner4 {
    fn eq(&self, other: &Self) -> (r: bool) {
        self.clientid == other.clientid && bytes_eq(self.owner.as_slice(), other.owner.as_slice())
    }
}

impl vstd::std_specs::cmp::PartialEqSpecImpl for OpenOwner4 {
    open spec fn obeys_eq_spec() -> bool {
        true
    }

    open spec fn eq_spec(&self, other: &Self) -> bool {
        self.same(other)
    }
}

impl Decode for OpenOwner4 {
    open spec fn decoded_len(s: Seq<u8>) -> Result<nat, XdrError> {
        let n = u64::decoded_len(s);
        let n = after::<Vec<u8>>(n, s);
        n
    }

    open spec fn decodes_to(&self, s: Seq<u8>) -> bool {
        let n1 = u64::decoded_len(s);
        &&& self.clientid.decodes_to(s)
        &&& self.owner.decodes_to(rest(n1, s))
    }

    fn decode(src: &mut Reader<'_>) -> (r: Result<Self, XdrError>) {
        let clientid: u64 = u64::decode(src)?;
        let owner: Vec<u8> = Vec::<u8>::decode(src)?;
        Ok(OpenOwner4 { clientid, owner })
    }
}

impl XDR for OpenOwner4 {
    open spec fn encodable(&self) -> bool {
        &&& self.clientid.encodable()
        &&& self.owner.encodable()
    }

    open spec fn encoding(&self) -> Seq<u8> {
        self.clientid.encoding() + self.owner.encoding()
    }

    open spec fn readable(&self) -> bool {
        &&& self.clientid.readable()
        &&& self.owner.readable()
    }

    proof fn round_trip(&self, t: Seq<u8>) {
        let t1 = self.owner.encoding() + t;
        add_assoc(self.clientid.encoding(), self.owner.encoding(), t);
        skip_prefix(self.clientid.encoding(), t1);
        self.clientid.round_trip(t1);
        self.owner.round_trip(t);
    }

    fn serialize(&self, dest: &mut Vec<u8>) -> (r: Result<(), XdrError>) {
        self.clientid.serialize(dest)?;
        self.owner.serialize(dest)?;
        proof {
            add_assoc(old(dest)@, self.clientid.encoding(), self.owner.encoding());
        }
        Ok(())
    }
}

// ---------------------------------------------------------------------------
// Times
// ---------------------------------------------------------------------------

/// A point in time: seconds since the Unix epoch and a part of a second.
#[derive(Clone, Copy, Debug, PartialEq, Eq, Structural)]
pub struct Nfstime4 {
    pub seconds: i64,
    pub nseconds: u32,
}

/// Division that drops the fraction, towards zero.
pub open spec fn trunc_div(a: int, b: int) -> int
    recommends
        b > 0,
{
    if a >= 0 {
        a / b
    } else {
        -((-a) / b)
    }
}

/// What `trunc_div` leaves over; it has the sign of `a`.
pub open spec fn trunc_rem(a: int, b: int) -> int
    recommends
        b > 0,
{
    if a >= 0 {
        a % b
    } else {
        -((-a) % b)
    }
}

impl Default for Nfstime4 {
    fn default() -> (r: Self)
        ensures
            r.seconds == 0,
            r.nseconds == 0,
    {
        Nfstime4 { seconds: 0, nseconds: 0 }
    }
}

impl Nfstime4 {
    /// The time that is `ms` milliseconds behind the epoch. Before the epoch the part of a second
    /// is negative, and is kept in two's complement.
    pub open spec fn of_millis(ms: i64) -> Self {
        Nfstime4 {
            seconds: trunc_div(ms as int, 1000) as i64,
            nseconds: ((trunc_rem(ms as int, 1000) * 1_000_000) as i64) as u32,
        }
    }

    /// The time that is `ms` milliseconds behind the epoch.
    pub fn from_millis(ms: i64) -> (r: Self)
        ensures
            r == Self::of_millis(ms),
    {
        let part: i64 = (ms % 1000) * 1_000_000;
        Nfstime4 { seconds: ms / 1000, nseconds: #[verifier::truncate] (part as u32) }
    }

    /// The whole milliseconds since the epoch.
    pub open spec fn millis(&self) -> int {
        self.seconds * 1000 + self.nseconds / 1_000_000
    }

    /// Whether the milliseconds since the epoch can be counted.
    pub open spec fn countable(&self) -> bool {
        i64::MIN <= self.seconds * 1000 && self.millis() <= i64::MAX
    }

    /// The whole milliseconds since the epoch.
    pub fn to_millis(&self) -> (r: i64)
        requires
            self.countable(),
        ensures
            r == self.millis(),
    {
        self.seconds * 1000 + (self.nseconds / 1_000_000) as i64
    }

    /// The time that is `t` behind the epoch.
    pub open spec fn of_unix(t: Duration) -> Self {
        Nfstime4 {
            seconds: (t.nanos / NANOS_PER_SEC) as i64,
            nseconds: (t.nanos % NANOS_PER_SEC) as u32,
        }
    }

    /// The time that is `t` behind the epoch.
    pub fn at_unix(t: Duration) -> (r: Self)
        ensures
            r == Self::of_unix(t),
            r.nseconds < 1_000_000_000,
    {
        Nfstime4 {
            seconds: #[verifier::truncate] ((t.nanos / NANOS_PER_SEC) as i64),
            nseconds: (t.nanos % NANOS_PER_SEC) as u32,
        }
    }

    /// The present.
    pub fn now() -> (r: Self)
        ensures
            exists|t: Duration| r == #[trigger] Self::of_unix(t),
            r.nseconds < 1_000_000_000,
    {
        Nfstime4::at_unix(unix_time())
    }
}

/// Milliseconds since the epoch survive being kept as a time.
pub proof fn law_millis_survive(ms: i64)
    requires
        0 <= ms,
    ensures
        Nfstime4::of_millis(ms).millis() == ms,
{
    let part = ((ms % 1000) * 1_000_000) as i64;
    assert(0 <= part < 1_000_000_000 ==> (part as u32) as i64 == part) by (bit_vector);
}

/// A time since the epoch is kept to the nanosecond, as far as its seconds can be counted.
pub proof fn law_unix_time_survives(t: Duration)
    requires
        t.nanos / NANOS_PER_SEC <= i64::MAX,
    ensures
        Nfstime4::of_unix(t).seconds * NANOS_PER_SEC + Nfstime4::of_unix(t).nseconds == t.nanos,
        Nfstime4::of_unix(t).seconds >= 0,
        Nfstime4::of_unix(t).nseconds < 1_000_000_000,
{
}

/// A time that was made from milliseconds can be counted in milliseconds.
pub proof fn millis_countable(ms: i64)
    ensures
        Nfstime4::of_millis(ms).countable(),
{
    if ms >= 0 {
        law_millis_survive(ms);
    }
}

impl Decode for Nfstime4 {
    open spec fn decoded_len(s: Seq<u8>) -> Result<nat, XdrError> {
        let n = i64::decoded_len(s);
        let n = after::<u32>(n, s);
        n
    }

    open spec fn decodes_to(&self, s: Seq<u8>) -> bool {
        let n1 = i64::decoded_len(s);
        &&& self.seconds.decodes_to(s)
        &&& self.nseconds.decodes_to(rest(n1, s))
    }

    fn decode(src: &mut Reader<'_>) -> (r: Result<Self, XdrError>) {
        let seconds: i64 = i64::decode(src)?;
        let nseconds: u32 = u32::decode(src)?;
        Ok(Nfstime4 { seconds, nseconds })
    }
}

impl XDR for Nfstime4 {
    open spec fn encodable(&self) -> bool {
        &&& self.seconds.encodable()
        &&& self.nseconds.encodable()
    }

    open spec fn encoding(&self) -> Seq<u8> {
        self.seconds.encoding() + self.nseconds.encoding()
    }

    open spec fn readable(&self) -> bool {
        &&& self.seconds.readable()
        &&& self.nseconds.readable()
    }

    proof fn round_trip(&self, t: Seq<u8>) {
        let t1 = self.nseconds.encoding() + t;
        add_assoc(self.seconds.encoding(), self.nseconds.encoding(), t);
        skip_prefix(self.seconds.encoding(), t1);
        self.seconds.round_trip(t1);
        self.nseconds.round_trip(t);
    }

    fn serialize(&self, dest: &mut Vec<u8>) -> (r: Result<(), XdrError>) {
        self.seconds.serialize(dest)?;
        self.nseconds.serialize(dest)?;
        proof {
            add_assoc(old(dest)@, self.seconds.encoding(), self.nseconds.encoding());
        }
        Ok(())
    }
}

// ---------------------------------------------------------------------------
// Files
// ---------------------------------------------------------------------------

/// What a file is.
#[derive(Copy, Clone, Debug, PartialEq, Eq, Structural)]
pub enum Nfs4FileType {
    Regular,
    Directory,
    Block,
    Character,
    Link,
    Socket,
    Fifo,
    AttrDir,
    NamedAttr,
}

impl Nfs4FileType {
    /// The number that stands for the value on the wire.
    pub open spec fn code_of(self) -> u32 {
        match self {
            Nfs4FileType::Regular => 1,
            Nfs4FileType::Directory => 2,
            Nfs4FileType::Block => 3,
            Nfs4FileType::Character => 4,
            Nfs4FileType::Link => 5,
            Nfs4FileType::Socket => 6,
            Nfs4FileType::Fifo => 7,
            Nfs4FileType::AttrDir => 8,
            Nfs4FileType::NamedAttr => 9,
        }
    }

    /// The value that a number stands for; `Regular` where it stands for none.
    pub open spec fn of_code(v: u32) -> Self {
        if v == 2 {
            Nfs4FileType::Directory
        } else if v == 3 {
            Nfs4FileType::Block
        } else if v == 4 {
            Nfs4FileType::Character
        } else if v == 5 {
            Nfs4FileType::Link
        } else if v == 6 {
            Nfs4FileType::Socket
        } else if v == 7 {
            Nfs4FileType::Fifo
        } else if v == 8 {
            Nfs4FileType::AttrDir
        } else if v == 9 {
            Nfs4FileType::NamedAttr
        } else {
            Nfs4FileType::Regular
        }
    }

    /// The number that stands for the value on the wire.
    pub fn code(&self) -> (r: u32)
        ensures
            r == self.code_of(),
    {
        match self {
            Nfs4FileType::Regular => 1,
            Nfs4FileType::Directory => 2,
            Nfs4FileType::Block => 3,
            Nfs4FileType::Character => 4,
            Nfs4FileType::Link => 5,
            Nfs4FileType::Socket => 6,
            Nfs4FileType::Fifo => 7,
            Nfs4FileType::AttrDir => 8,
            Nfs4FileType::NamedAttr => 9,
        }
    }

    /// The value that a number stands for.
    pub fn from_code(v: u32) -> (r: Self)
        ensures
            r == Self::of_code(v),
    {
        match v {
            2 => Nfs4FileType::Directory,
            3 => Nfs4FileType::Block,
            4 => Nfs4FileType::Character,
            5 => Nfs4FileType::Link,
            6 => Nfs4FileType::Socket,
            7 => Nfs4FileType::Fifo,
            8 => Nfs4FileType::AttrDir,
            9 => Nfs4FileType::NamedAttr,
            _ => Nfs4FileType::Regular,
        }
    }
}

impl Decode for Nfs4FileType {
    open spec fn decoded_len(s: Seq<u8>) -> Result<nat, XdrError> {
        need(s, 4)
    }

    open spec fn decodes_to(&self, s: Seq<u8>) -> bool {
        *self == Nfs4FileType::of_code(be32_at(s))
    }

    fn decode(src: &mut Reader<'_>) -> (r: Result<Self, XdrError>) {
        let v: u32 = src.read_u32()?;
        Ok(Nfs4FileType::from_code(v))
    }
}

impl XDR for Nfs4FileType {
    open spec fn encodable(&self) -> bool {
        true
    }

    open spec fn encoding(&self) -> Seq<u8> {
        be32(self.code_of())
    }

    open spec fn readable(&self) -> bool {
        true
    }

    proof fn round_trip(&self, t: Seq<u8>) {
        be32_round_trip(self.code_of(), t);
    }

    fn serialize(&self, dest: &mut Vec<u8>) -> (r: Result<(), XdrError>) {
        put_u32(dest, self.code());
        Ok(())
    }
}

impl Default for Nfs4FileType {
    fn default() -> (r: Self)
        ensures
            r == Nfs4FileType::Regular,
    {
        Nfs4FileType::Regular
    }
}

/// What a file is to the storage behind the server.
#[derive(Clone, Copy, Debug, PartialEq, Eq, Structural)]
pub enum FileType {
    Dir,
    File,
    Link,
    Stream,
    Agg,
    Object,
}

impl Nfs4FileType {
    /// What a file is to clients.
    pub open spec fn of_type(ft: FileType) -> Nfs4FileType {
        match ft {
            FileType::Dir => Nfs4FileType::Directory,
            FileType::Link => Nfs4FileType::Link,
            _ => Nfs4FileType::Regular,
        }
    }
}

impl vstd::std_specs::convert::FromSpecImpl<FileType> for Nfs4FileType {
    open spec fn obeys_from_spec() -> bool {
        true
    }

    open spec fn from_spec(ft: FileType) -> Self {
        Nfs4FileType::of_type(ft)
    }
}

impl From<FileType> for Nfs4FileType {
    fn from(ft: FileType) -> (r: Self) {
        match ft {
            FileType::File => Nfs4FileType::Regular,
            FileType::Dir => Nfs4FileType::Directory,
            FileType::Link => Nfs4FileType::Link,
            _ => Nfs4FileType::Regular,
        }
    }
}

/// Attributes in the form in which they are sent: which ones, and their values.
#[derive(Clone, Debug)]
pub struct Fattr4 {
    pub attrmask: Bitmap4,
    pub attr_vals: Vec<u8>,
}

impl Decode for Fattr4 {
    open spec fn decoded_len(s: Seq<u8>) -> Result<nat, XdrError> {
        let n = Vec::<u32>::decoded_len(s);
        let n = after::<Vec<u8>>(n, s);
        n
    }

    open spec fn decodes_to(&self, s: Seq<u8>) -> bool {
        let n1 = Vec::<u32>::decoded_len(s);
        &&& self.attrmask.decodes_to(s)
        &&& self.attr_vals.decodes_to(rest(n1, s))
    }

    fn decode(src: &mut Reader<'_>) -> (r: Result<Self, XdrError>) {
        let attrmask: Vec<u32> = Vec::<u32>::decode(src)?;
        let attr_vals: Vec<u8> = Vec::<u8>::decode(src)?;
        Ok(Fattr4 { attrmask, attr_vals })
    }
}

impl XDR for Fattr4 {
    open spec fn encodable(&self) -> bool {
        &&& self.attrmask.encodable()
        &&& self.attr_vals.encodable()
    }

    open spec fn encoding(&self) -> Seq<u8> {
        self.attrmask.encoding() + self.attr_vals.encoding()
    }

    open spec fn readable(&self) -> bool {
        &&& self.attrmask.readable()
        &&& self.attr_vals.readable()
    }

    proof fn round_trip(&self, t: Seq<u8>) {
        let t1 = self.attr_vals.encoding() + t;
        add_assoc(self.attrmask.encoding(), self.attr_vals.encoding(), t);
        skip_prefix(self.attrmask.encoding(), t1);
        self.attrmask.round_trip(t1);
        self.attr_vals.round_trip(t);
    }

    fn serialize(&self, dest: &mut Vec<u8>) -> (r: Result<(), XdrError>) {
        self.attrmask.serialize(dest)?;
        self.attr_vals.serialize(dest)?;
        proof {
            add_assoc(old(dest)@, self.attrmask.encoding(), self.attr_vals.encoding());
        }
        Ok(())
    }
}

/// What the storage behind the server says of a file.
#[derive(Debug)]
pub struct FileStatus {
    /// Zero where the storage does not number its files.
    pub id: i64,
    pub name: String,
    pub file_type: FileType,
    pub mode: u32,
    pub nlink: u32,
    pub owner: String,
    pub group: String,
    pub len: i64,
    /// Milliseconds since the Unix epoch.
    pub atime: i64,
    /// Milliseconds since the Unix epoch.
    pub mtime: i64,
    /// What a symbolic link points to.
    pub target: Option<String>,
}

impl Clone for FileStatus {
    fn clone(&self) -> (r: Self)
        ensures
            r == *self,
    {
        FileStatus {
            id: self.id,
            name: self.name.clone(),
            file_type: self.file_type,
            mode: self.mode,
            nlink: self.nlink,
            owner: self.owner.clone(),
            group: self.group.clone(),
            len: self.len,
            atime: self.atime,
            mtime: self.mtime,
            target: match &self.target {
                Some(t) => Some(t.clone()),
                None => None,
            },
        }
    }
}

/// The attributes of a file that clients can ask for.
#[derive(Clone, Debug)]
pub struct FileAttrs {
    pub file_type: Nfs4FileType,
    pub mode: Mode4,
    pub nlink: u32,
    pub owner: String,
    pub group: String,
    pub size: u64,
    pub used: u64,
    pub fileid: Fileid4,
    pub atime: Nfstime4,
    pub mtime: Nfstime4,
    pub ctime: Nfstime4,
}

/// The bytes that a length takes in blocks of 512.
pub open spec fn used_bytes(len: i64) -> u64 {
    ((trunc_div(len.wrapping_add(511) as int, 512) * 512) as i64) as u64
}

/// The bytes that a length takes in blocks of 512.
pub fn used_by(len: i64) -> (r: u64)
    ensures
        r == used_bytes(len),
{
    let used: i64 = len.wrapping_add(511) / 512 * 512;
    #[verifier::truncate] (used as u64)
}

impl FileAttrs {
    /// Whether these are the attributes of the file that `status` is of.
    pub open spec fn is_of(&self, status: FileStatus) -> bool {
        &&& self.file_type == Nfs4FileType::of_type(status.file_type)
        &&& self.mode == status.mode
        &&& self.nlink == status.nlink
        &&& self.owner == status.owner
        &&& self.group == status.group
        &&& self.size == status.len as u64
        &&& self.used == used_bytes(status.len)
        &&& self.fileid == status.id as u64
        &&& self.atime == Nfstime4::of_millis(status.atime)
        &&& self.mtime == Nfstime4::of_millis(status.mtime)
        &&& self.ctime == Nfstime4::of_millis(status.mtime)
    }

    /// The attributes of the file that `status` is of. The time of the last change of the
    /// attributes is not recorded; that of the contents stands for it.
    pub fn from_status(status: &FileStatus) -> (r: Self)
        ensures
            r.is_of(*status),
    {
        FileAttrs {
            file_type: Nfs4FileType::from(status.file_type),
            mode: status.mode,
            nlink: status.nlink,
            owner: status.owner.clone(),
            group: status.group.clone(),
            size: #[verifier::truncate] (status.len as u64),
            used: used_by(status.len),
            fileid: #[verifier::truncate] (status.id as u64),
            atime: Nfstime4::from_millis(status.atime),
            mtime: Nfstime4::from_millis(status.mtime),
            ctime: Nfstime4::from_millis(status.mtime),
        }
    }
}

} // verus!
