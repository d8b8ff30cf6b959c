//! External data representation: how values are written as bytes and read back.
//!
//! `Decode` says of a type which bytes a value is read from; `XDR` adds how a value is
//! written, and that reading gives back what was written.

use crate::bytes::{
    be32, be32_at, be32_round_trip, be64, be64_at, be64_round_trip, be_bool, extends, need, opaque,
    pad_len, put_bool, put_bytes, put_opaque, put_u32, put_u64, zeros, Reader, XdrError,
};
use vstd::prelude::*;

verus! {

broadcast use {crate::bytes::skip_skip, crate::bytes::skip_nothing};

/// The longest byte string that is read.
pub const XDR_MAX_DATA_SIZE: usize = 16 * 1024 * 1024;

/// The longest array of numbers that is read.
pub const XDR_MAX_ARRAY_SIZE: usize = 1024 * 1024;

/// A value that can be read from bytes.
pub trait Decode: Sized {
    /// How many bytes of `s` a value takes, or why none can be read.
    spec fn decoded_len(s: Seq<u8>) -> Result<nat, XdrError>;

    /// Whether `self` is the value read from the start of `s`.
    spec fn decodes_to(&self, s: Seq<u8>) -> bool;

    /// Reads a value. After a failure, how much has been read is left open.
    fn decode(src: &mut Reader<'_>) -> (r: Result<Self, XdrError>)
        ensures
            match Self::decoded_len(old(src)@) {
                Ok(n) => {
                    &&& r is Ok
                    &&& r->Ok_0.decodes_to(old(src)@)
                    &&& n <= old(src)@.len()
                    &&& final(src)@ == old(src)@.skip(n as int)
                },
                Err(e) => r is Err && r->Err_0 == e,
            },
    ;
}

/// A value that can be written as bytes and read back.
#[allow(clippy::upper_case_acronyms)]
pub trait XDR: Decode {
    /// Whether the format can hold the value.
    spec fn encodable(&self) -> bool;

    /// The bytes of the value.
    spec fn encoding(&self) -> Seq<u8>;

    /// Whether the value keeps to the limits that are set on what is read.
    spec fn readable(&self) -> bool;

    /// What was written is read back as it was, whatever follows it.
    proof fn round_trip(&self, t: Seq<u8>)
        requires
            self.encodable(),
            self.readable(),
        ensures
            Self::decoded_len(self.encoding() + t) == Ok::<nat, XdrError>(self.encoding().len()),
            self.decodes_to(self.encoding() + t),
    ;

    /// Appends the bytes of the value.
    fn serialize(&self, dest: &mut Vec<u8>) -> (r: Result<(), XdrError>)
        ensures
            r is Ok <==> self.encodable(),
            r is Ok ==> final(dest)@ == old(dest)@ + self.encoding(),
            r is Err ==> r->Err_0 == XdrError::InvalidData && extends(old(dest)@, final(dest)@),
    ;

    /// Replaces the value by the one that is read.
    fn deserialize(&mut self, src: &mut Reader<'_>) -> (r: Result<(), XdrError>)
        ensures
            match Self::decoded_len(old(src)@) {
                Ok(n) => {
                    &&& r is Ok
                    &&& final(self).decodes_to(old(src)@)
                    &&& n <= old(src)@.len()
                    &&& final(src)@ == old(src)@.skip(n as int)
                },
                Err(e) => r is Err && r->Err_0 == e && *final(self) == *old(self),
            },
    {
        match Self::decode(src) {
            Ok(v) => {
                *self = v;
                Ok(())
            },
            Err(e) => Err(e),
        }
    }
}

/// A value that the format can hold, and that keeps to the limits on what is read, is read
/// back from its own bytes, and what stood behind those bytes is what is left to be read.
pub proof fn law_written_value_reads_back<T: XDR>(v: T, t: Seq<u8>)
    requires
        v.encodable(),
        v.readable(),
    ensures
        T::decoded_len(v.encoding() + t) == Ok::<nat, XdrError>(v.encoding().len()),
        v.decodes_to(v.encoding() + t),
        (v.encoding() + t).skip(v.encoding().len() as int) == t,
{
    v.round_trip(t);
    assert((v.encoding() + t).skip(v.encoding().len() as int) =~= t);
}

// ---------------------------------------------------------------------------
// One value behind another
// ---------------------------------------------------------------------------

/// The bytes up to the end of a `T` that stands behind what `prev` counts.
pub open spec fn after<T: Decode>(prev: Result<nat, XdrError>, s: Seq<u8>) -> Result<
    nat,
    XdrError,
> {
    match prev {
        Err(e) => Err(e),
        Ok(n) => match T::decoded_len(s.skip(n as int)) {
            Err(e) => Err(e),
            Ok(m) => Ok(n + m),
        },
    }
}

/// What of `s` stands behind the bytes that `prev` counts.
pub open spec fn rest(prev: Result<nat, XdrError>, s: Seq<u8>) -> Seq<u8> {
    match prev {
        Ok(n) => s.skip(n as int),
        Err(_) => s,
    }
}

// ---------------------------------------------------------------------------
// Basic types
// ---------------------------------------------------------------------------

impl Decode for bool {
    open spec fn decoded_len(s: Seq<u8>) -> Result<nat, XdrError> {
        need(s, 4)
    }

    open spec fn decodes_to(&self, s: Seq<u8>) -> bool {
        *self == (be32_at(s) > 0)
    }

    fn decode(src: &mut Reader<'_>) -> (r: Result<Self, XdrError>) {
        let v: u32 = src.read_u32()?;
        Ok(v > 0)
    }
}

impl XDR for bool {
    open spec fn encodable(&self) -> bool {
        true
    }

    open spec fn encoding(&self) -> Seq<u8> {
        be_bool(*self)
    }

    open spec fn readable(&self) -> bool {
        true
    }

    proof fn round_trip(&self, t: Seq<u8>) {
        be32_round_trip(
            if *self {
                1u32
            } else {
                0u32
            },
            t,
        );
    }

    fn serialize(&self, dest: &mut Vec<u8>) -> (r: Result<(), XdrError>) {
        put_bool(dest, *self);
        Ok(())
    }
}

impl Decode for u32 {
    open spec fn decoded_len(s: Seq<u8>) -> Result<nat, XdrError> {
        need(s, 4)
    }

    open spec fn decodes_to(&self, s: Seq<u8>) -> bool {
        *self == be32_at(s)
    }

    fn decode(src: &mut Reader<'_>) -> (r: Result<Self, XdrError>) {
        src.read_u32()
    }
}

impl XDR for u32 {
    open spec fn encodable(&self) -> bool {
        true
    }

    open spec fn encoding(&self) -> Seq<u8> {
        be32(*self)
    }

    open spec fn readable(&self) -> bool {
        true
    }

    proof fn round_trip(&self, t: Seq<u8>) {
        be32_round_trip(*self, t);
    }

    fn serialize(&self, dest: &mut Vec<u8>) -> (r: Result<(), XdrError>) {
        put_u32(dest, *self);
        Ok(())
    }
}

impl Decode for u64 {
    open spec fn decoded_len(s: Seq<u8>) -> Result<nat, XdrError> {
        need(s, 8)
    }

    open spec fn decodes_to(&self, s: Seq<u8>) -> bool {
        *self == be64_at(s)
    }

    fn decode(src: &mut Reader<'_>) -> (r: Result<Self, XdrError>) {
        src.read_u64()
    }
}

impl XDR for u64 {
    open spec fn encodable(&self) -> bool {
        true
    }

    open spec fn encoding(&self) -> Seq<u8> {
        be64(*self)
    }

    open spec fn readable(&self) -> bool {
        true
    }

    proof fn round_trip(&self, t: Seq<u8>) {
        be64_round_trip(*self, t);
    }

    fn serialize(&self, dest: &mut Vec<u8>) -> (r: Result<(), XdrError>) {
        put_u64(dest, *self);
        Ok(())
    }
}

impl Decode for i32 {
    open spec fn decoded_len(s: Seq<u8>) -> Result<nat, XdrError> {
        need(s, 4)
    }

    /// The number in two's complement.
    open spec fn decodes_to(&self, s: Seq<u8>) -> bool {
        *self == be32_at(s) as i32
    }

    fn decode(src: &mut Reader<'_>) -> (r: Result<Self, XdrError>) {
        let v: u32 = src.read_u32()?;
        Ok(#[verifier::truncate] (v as i32))
    }
}

impl XDR for i32 {
    open spec fn encodable(&self) -> bool {
        true
    }

    open spec fn encoding(&self) -> Seq<u8> {
        be32(*self as u32)
    }

    open spec fn readable(&self) -> bool {
        true
    }

    proof fn round_trip(&self, t: Seq<u8>) {
        let x = *self;
        be32_round_trip(x as u32, t);
        assert((x as u32) as i32 == x) by (bit_vector);
    }

    fn serialize(&self, dest: &mut Vec<u8>) -> (r: Result<(), XdrError>) {
        put_u32(dest, #[verifier::truncate] (*self as u32));
        Ok(())
    }
}

impl Decode for i64 {
    open spec fn decoded_len(s: Seq<u8>) -> Result<nat, XdrError> {
        need(s, 8)
    }

    /// The number in two's complement.
    open spec fn decodes_to(&self, s: Seq<u8>) -> bool {
        *self == be64_at(s) as i64
    }

    fn decode(src: &mut Reader<'_>) -> (r: Result<Self, XdrError>) {
        let v: u64 = src.read_u64()?;
        Ok(#[verifier::truncate] (v as i64))
    }
}

impl XDR for i64 {
    open spec fn encodable(&self) -> bool {
        true
    }

    open spec fn encoding(&self) -> Seq<u8> {
        be64(*self as u64)
    }

    open spec fn readable(&self) -> bool {
        true
    }

    proof fn round_trip(&self, t: Seq<u8>) {
        let x = *self;
        be64_round_trip(x as u64, t);
        assert((x as u64) as i64 == x) by (bit_vector);
    }

    fn serialize(&self, dest: &mut Vec<u8>) -> (r: Result<(), XdrError>) {
        put_u64(dest, #[verifier::truncate] (*self as u64));
        Ok(())
    }
}

// ---------------------------------------------------------------------------
// Byte strings
// ---------------------------------------------------------------------------

impl<const N: usize> Decode for [u8; N] {
    open spec fn decoded_len(s: Seq<u8>) -> Result<nat, XdrError> {
        need(s, N as nat)
    }

    open spec fn decodes_to(&self, s: Seq<u8>) -> bool {
        self@ == s.take(N as int)
    }

    fn decode(src: &mut Reader<'_>) -> (r: Result<Self, XdrError>) {
        let b = src.take(N)?;
        let mut out: [u8; N] = [0;N];
        let mut i: usize = 0;
        while i < N
            invariant
                i <= N,
                b@.len() == N,
                forall|j: int| 0 <= j < i ==> out@[j] == b@[j],
            decreases N - i,
        {
            out[i] = b[i];
            i = i + 1;
        }
        assert(out@ =~= b@);
        Ok(out)
    }
}

impl<const N: usize> XDR for [u8; N] {
    open spec fn encodable(&self) -> bool {
        true
    }

    open spec fn encoding(&self) -> Seq<u8> {
        self@
    }

    open spec fn readable(&self) -> bool {
        true
    }

    proof fn round_trip(&self, t: Seq<u8>) {
        assert(self@.len() == N);
        assert((self@ + t).take(N as int) =~= self@);
    }

    fn serialize(&self, dest: &mut Vec<u8>) -> (r: Result<(), XdrError>) {
        put_bytes(dest, vstd::array::array_as_slice(self));
        Ok(())
    }
}

/// The bytes of a byte string with its length and its padding, or why none of at most `max`
/// bytes can be read.
pub open spec fn opaque_len(s: Seq<u8>, max: nat) -> Result<nat, XdrError> {
    if s.len() < 4 {
        Err(XdrError::UnexpectedEof)
    } else if be32_at(s) > max {
        Err(XdrError::InvalidData)
    } else {
        need(s, 4 + be32_at(s) as nat + pad_len(be32_at(s) as nat))
    }
}

/// The byte string at the start of `s`, without its length and its padding.
pub open spec fn opaque_at(s: Seq<u8>) -> Seq<u8> {
    s.subrange(4, 4 + be32_at(s) as int)
}

/// Reads a byte string of at most `max` bytes.
pub fn read_opaque(src: &mut Reader<'_>, max: usize) -> (r: Result<Vec<u8>, XdrError>)
    ensures
        match opaque_len(old(src)@, max as nat) {
            Ok(n) => {
                &&& r is Ok
                &&& r->Ok_0@ == opaque_at(old(src)@)
                &&& n <= old(src)@.len()
                &&& final(src)@ == old(src)@.skip(n as int)
            },
            Err(e) => r is Err && r->Err_0 == e,
        },
{
    let ghost s = src@;
    let len: u32 = src.read_u32()?;
    if len as usize > max {
        return Err(XdrError::InvalidData);
    }
    let body = src.take(len as usize)?;
    assert(body@ =~= opaque_at(s));
    let out = crate::bytes::bytes_vec(body);
    let pad: usize = (4 - len as usize % 4) % 4;
    src.skip_bytes(pad)?;
    Ok(out)
}

/// A byte string reads back from its own bytes.
pub proof fn opaque_round_trip(b: Seq<u8>, max: nat, t: Seq<u8>)
    requires
        b.len() <= max,
        b.len() <= u32::MAX,
    ensures
        opaque_len(opaque(b) + t, max) == Ok::<nat, XdrError>(opaque(b).len()),
        opaque_at(opaque(b) + t) == b,
        opaque(b).len() == 4 + b.len() + pad_len(b.len()),
{
    let z = zeros(pad_len(b.len()));
    let s = opaque(b) + t;
    assert(s =~= be32(b.len() as u32) + (b + z + t));
    be32_round_trip(b.len() as u32, b + z + t);
    assert(s.subrange(4, 4 + b.len() as int) =~= b);
}

impl Decode for Vec<u8> {
    open spec fn decoded_len(s: Seq<u8>) -> Result<nat, XdrError> {
        opaque_len(s, XDR_MAX_DATA_SIZE as nat)
    }

    open spec fn decodes_to(&self, s: Seq<u8>) -> bool {
        self@ == opaque_at(s)
    }

    fn decode(src: &mut Reader<'_>) -> (r: Result<Self, XdrError>) {
        read_opaque(src, XDR_MAX_DATA_SIZE)
    }
}

impl XDR for Vec<u8> {
    open spec fn encodable(&self) -> bool {
        self@.len() < u32::MAX
    }

    open spec fn encoding(&self) -> Seq<u8> {
        opaque(self@)
    }

    open spec fn readable(&self) -> bool {
        self@.len() <= XDR_MAX_DATA_SIZE
    }

    proof fn round_trip(&self, t: Seq<u8>) {
        opaque_round_trip(self@, XDR_MAX_DATA_SIZE as nat, t);
    }

    fn serialize(&self, dest: &mut Vec<u8>) -> (r: Result<(), XdrError>) {
        if self.len() >= u32::MAX as usize {
            return Err(XdrError::InvalidData);
        }
        put_opaque(dest, self.as_slice());
        Ok(())
    }
}

// ---------------------------------------------------------------------------
// Arrays of numbers
// ---------------------------------------------------------------------------

/// The bytes of the numbers of `v`, one behind the other.
pub open spec fn be32s(v: Seq<u32>) -> Seq<u8>
    decreases v.len(),
{
    if v.len() == 0 {
        Seq::empty()
    } else {
        be32s(v.drop_last()) + be32(v.last())
    }
}

/// Where each number of an array stands.
pub proof fn be32s_index(v: Seq<u32>, i: int, t: Seq<u8>)
    requires
        0 <= i < v.len(),
    ensures
        be32s(v).len() == 4 * v.len(),
        be32_at((be32s(v) + t).skip(4 * i)) == v[i],
    decreases v.len(),
{
    let init = v.drop_last();
    assert(be32s(v) + t =~= be32s(init) + (be32(v.last()) + t));
    if i == v.len() - 1 {
        be32s_len(init);
        assert((be32s(v) + t).skip(4 * i) =~= be32(v.last()) + t);
        be32_round_trip(v.last(), t);
    } else {
        be32s_index(init, i, be32(v.last()) + t);
    }
    be32s_len(v);
}

/// An array takes four bytes for each number.
pub proof fn be32s_len(v: Seq<u32>)
    ensures
        be32s(v).len() == 4 * v.len(),
    decreases v.len(),
{
    if v.len() > 0 {
        be32s_len(v.drop_last());
    }
}

impl Decode for Vec<u32> {
    open spec fn decoded_len(s: Seq<u8>) -> Result<nat, XdrError> {
        if s.len() < 4 {
            Err(XdrError::UnexpectedEof)
        } else if be32_at(s) > XDR_MAX_ARRAY_SIZE {
            Err(XdrError::InvalidData)
        } else {
            need(s, 4 + 4 * be32_at(s) as nat)
        }
    }

    open spec fn decodes_to(&self, s: Seq<u8>) -> bool {
        &&& self@.len() == be32_at(s)
        &&& forall|i: int|
            0 <= i < self@.len() ==> #[trigger] self@[i] == be32_at(s.skip(4 + 4 * i))
    }

    fn decode(src: &mut Reader<'_>) -> (r: Result<Self, XdrError>) {
        let ghost s = src@;
        let len: u32 = src.read_u32()?;
        if len as usize > XDR_MAX_ARRAY_SIZE {
            return Err(XdrError::InvalidData);
        }
        let mut out: Vec<u32> = Vec::new();
        let mut i: u32 = 0;
        while i < len
            invariant
                s == old(src)@,
                s.len() >= 4,
                len == be32_at(s),
                len <= XDR_MAX_ARRAY_SIZE,
                i <= len,
                out@.len() == i,
                4 + 4 * i <= s.len(),
                src@ == s.skip(4 + 4 * i),
                forall|j: int| 0 <= j < i ==> #[trigger] out@[j] == be32_at(s.skip(4 + 4 * j)),
            decreases len - i,
        {
            match src.read_u32() {
                Ok(v) => out.push(v),
                Err(e) => {
                    return Err(e);
                },
            }
            i = i + 1;
        }
        Ok(out)
    }
}

impl XDR for Vec<u32> {
    open spec fn encodable(&self) -> bool {
        self@.len() < u32::MAX
    }

    open spec fn encoding(&self) -> Seq<u8> {
        be32(self@.len() as u32) + be32s(self@)
    }

    open spec fn readable(&self) -> bool {
        self@.len() <= XDR_MAX_ARRAY_SIZE
    }

    proof fn round_trip(&self, t: Seq<u8>) {
        let n = be32(self@.len() as u32);
        let s = self.encoding() + t;
        be32s_len(self@);
        assert(s =~= n + (be32s(self@) + t));
        be32_round_trip(self@.len() as u32, be32s(self@) + t);
        assert forall|i: int| 0 <= i < self@.len() implies #[trigger] self@[i] == be32_at(
            s.skip(4 + 4 * i),
        ) by {
            be32s_index(self@, i, t);
            assert(s.skip(4 + 4 * i) =~= (be32s(self@) + t).skip(4 * i));
        }
    }

    fn serialize(&self, dest: &mut Vec<u8>) -> (r: Result<(), XdrError>) {
        if self.len() >= u32::MAX as usize {
            return Err(XdrError::InvalidData);
        }
        put_u32(dest, self.len() as u32);
        let ghost start = dest@;
        let mut i: usize = 0;
        assert(start + be32s(self@.take(0)) =~= start);
        while i < self.len()
            invariant
                i <= self.len(),
                dest@ == start + be32s(self@.take(i as int)),
            decreases self.len() - i,
        {
            put_u32(dest, self[i]);
            assert(self@.take(i + 1).drop_last() =~= self@.take(i as int));
            assert(dest@ =~= start + be32s(self@.take(i + 1)));
            i = i + 1;
        }
        assert(self@.take(i as int) =~= self@);
        assert(dest@ =~= old(dest)@ + self.encoding());
        Ok(())
    }
}

} // verus!
