//! Big-endian byte encodings, and the cursor that requests are read through.

use vstd::prelude::*;

verus! {

/// Why bytes could not be read as a value, or a value not be written as bytes.
#[derive(Clone, Copy, PartialEq, Eq, Structural, Debug)]
pub enum XdrError {
    /// The input ends inside the value.
    UnexpectedEof,
    /// A length or a discriminant is outside of what the format allows.
    InvalidData,
}

// ---------------------------------------------------------------------------
// Integers
// ---------------------------------------------------------------------------

/// The four bytes of `x`, most significant first.
pub open spec fn be32(x: u32) -> Seq<u8> {
    seq![
        (x / 0x100_0000) as u8,
        ((x / 0x1_0000) % 256) as u8,
        ((x / 0x100) % 256) as u8,
        (x % 256) as u8,
    ]
}

/// The number that the first four bytes of `s` stand for.
pub open spec fn be32_at(s: Seq<u8>) -> u32 {
    (s[0] * 0x100_0000 + s[1] * 0x1_0000 + s[2] * 0x100 + s[3]) as u32
}

/// The eight bytes of `x`, most significant first.
pub open spec fn be64(x: u64) -> Seq<u8> {
    be32((x / 0x1_0000_0000) as u32) + be32((x % 0x1_0000_0000) as u32)
}

/// The number that the first eight bytes of `s` stand for.
pub open spec fn be64_at(s: Seq<u8>) -> u64 {
    (be32_at(s) * 0x1_0000_0000 + be32_at(s.skip(4))) as u64
}

/// A flag takes four bytes on the wire, as the number 0 or 1.
pub open spec fn be_bool(b: bool) -> Seq<u8> {
    be32(if b { 1u32 } else { 0u32 })
}

/// Reading four bytes gives back the number that was written.
pub proof fn be32_round_trip(x: u32, t: Seq<u8>)
    ensures
        be32_at(be32(x) + t) == x,
        be32(x).len() == 4,
{
    let s = be32(x) + t;
    assert(s[0] == be32(x)[0] && s[1] == be32(x)[1] && s[2] == be32(x)[2] && s[3] == be32(x)[3]);
}

/// Reading eight bytes gives back the number that was written.
pub proof fn be64_round_trip(x: u64, t: Seq<u8>)
    ensures
        be64_at(be64(x) + t) == x,
        be64(x).len() == 8,
{
    let hi = (x / 0x1_0000_0000) as u32;
    let lo = (x % 0x1_0000_0000) as u32;
    let s = be64(x) + t;
    assert(s =~= be32(hi) + (be32(lo) + t));
    assert(s.skip(4) =~= be32(lo) + t);
    be32_round_trip(hi, be32(lo) + t);
    be32_round_trip(lo, t);
}

/// The four bytes of `x`, least significant first.
pub open spec fn le32(x: u32) -> Seq<u8> {
    seq![
        (x % 256) as u8,
        ((x / 0x100) % 256) as u8,
        ((x / 0x1_0000) % 256) as u8,
        (x / 0x100_0000) as u8,
    ]
}

/// The number that the first four bytes of `s` stand for, least significant first.
#[verifier::opaque]
pub open spec fn le32_at(s: Seq<u8>) -> u32 {
    (s[0] + s[1] * 0x100 + s[2] * 0x1_0000 + s[3] * 0x100_0000) as u32
}

/// The eight bytes of `x`, least significant first.
pub open spec fn le64(x: u64) -> Seq<u8> {
    le32((x % 0x1_0000_0000) as u32) + le32((x / 0x1_0000_0000) as u32)
}

/// The number that the first eight bytes of `s` stand for, least significant first.
pub open spec fn le64_at(s: Seq<u8>) -> u64 {
    (le32_at(s) + le32_at(s.skip(4)) * 0x1_0000_0000) as u64
}

/// Four bytes make a number and can be got back from it.
proof fn le32_parts(x: u32, a: u8, b: u8, c: u8, d: u8)
    ensures
        (((x % 256) as u8) + (((x / 0x100) % 256) as u8) * 0x100 + (((x / 0x1_0000) % 256) as u8)
            * 0x1_0000 + ((x / 0x100_0000) as u8) * 0x100_0000) == x,
        a + b * 0x100 + c * 0x1_0000 + d * 0x100_0000 <= u32::MAX,
        ({
            let n = (a + b * 0x100 + c * 0x1_0000 + d * 0x100_0000) as u32;
            &&& (n % 256) as u8 == a
            &&& ((n / 0x100) % 256) as u8 == b
            &&& ((n / 0x1_0000) % 256) as u8 == c
            &&& (n / 0x100_0000) as u8 == d
        }),
{
    assert((((x % 256) as u8) + (((x / 0x100) % 256) as u8) * 0x100 + (((x / 0x1_0000)
        % 256) as u8) * 0x1_0000 + ((x / 0x100_0000) as u8) * 0x100_0000) == x) by (bit_vector);
    let n = (a + b * 0x100 + c * 0x1_0000 + d * 0x100_0000) as u32;
    assert((n % 256) as u8 == a && ((n / 0x100) % 256) as u8 == b && ((n / 0x1_0000) % 256) as u8
        == c && (n / 0x100_0000) as u8 == d) by (bit_vector)
        requires
            n == (a + b * 0x100 + c * 0x1_0000 + d * 0x100_0000) as u32,
    ;
}

/// Reading four bytes gives back the number that was written, and the other way round.
pub proof fn le32_round_trip(x: u32, s: Seq<u8>, t: Seq<u8>)
    ensures
        le32_at(le32(x) + t) == x,
        le32(x).len() == 4,
        s.len() >= 4 ==> le32(le32_at(s)) == s.take(4),
{
    reveal(le32_at);
    let w = le32(x) + t;
    assert(w[0] == le32(x)[0] && w[1] == le32(x)[1] && w[2] == le32(x)[2] && w[3] == le32(x)[3]);
    le32_parts(x, s[0], s[1], s[2], s[3]);
    if s.len() >= 4 {
        assert(le32(le32_at(s)) =~= s.take(4));
    }
}

/// Two halves of a number can be told apart.
proof fn halves(a: u32, b: u32, c: u64, d: u64)
    ensures
        ((a + b * 0x1_0000_0000) as u64) % 0x1_0000_0000 == a,
        ((a + b * 0x1_0000_0000) as u64) / 0x1_0000_0000 == b,
        ((c + d * 0x1_0000_0000_0000_0000) as u128) % 0x1_0000_0000_0000_0000 == c,
        ((c + d * 0x1_0000_0000_0000_0000) as u128) / 0x1_0000_0000_0000_0000 == d,
{
}

/// Reading eight bytes gives back the number that was written, and the other way round.
pub proof fn le64_round_trip(x: u64, s: Seq<u8>, t: Seq<u8>)
    ensures
        le64_at(le64(x) + t) == x,
        le64(x).len() == 8,
        s.len() >= 8 ==> le64(le64_at(s)) == s.take(8),
{
    let lo = (x % 0x1_0000_0000) as u32;
    let hi = (x / 0x1_0000_0000) as u32;
    let w = le64(x) + t;
    assert(w =~= le32(lo) + (le32(hi) + t));
    assert(w.skip(4) =~= le32(hi) + t);
    halves(lo, hi, 0, 0);
    le32_round_trip(lo, s, le32(hi) + t);
    le32_round_trip(hi, s.skip(4), t);
    if s.len() >= 8 {
        halves(le32_at(s), le32_at(s.skip(4)), 0, 0);
        assert(le64(le64_at(s)) == s.take(4) + s.skip(4).take(4));
        assert(s.take(4) + s.skip(4).take(4) =~= s.take(8));
    }
}

/// Sixteen bytes as one number, which tells them apart from any other sixteen bytes.
pub open spec fn key16(s: Seq<u8>) -> u128 {
    (le64_at(s) + le64_at(s.skip(8)) * 0x1_0000_0000_0000_0000) as u128
}

/// Twelve bytes as one number, which tells them apart from any other twelve bytes.
pub open spec fn key12(s: Seq<u8>) -> u128 {
    (le64_at(s) + le32_at(s.skip(8)) * 0x1_0000_0000_0000_0000) as u128
}

/// Sixteen bytes with the same number are the same bytes.
pub proof fn key16_injective(a: Seq<u8>, b: Seq<u8>)
    requires
        a.len() == 16,
        b.len() == 16,
        key16(a) == key16(b),
    ensures
        a == b,
{
    halves(0, 0, le64_at(a), le64_at(a.skip(8)));
    halves(0, 0, le64_at(b), le64_at(b.skip(8)));
    le64_round_trip(0, a, a);
    le64_round_trip(0, b, b);
    le64_round_trip(0, a.skip(8), a);
    le64_round_trip(0, b.skip(8), b);
    assert(a =~= a.take(8) + a.skip(8).take(8));
    assert(b =~= b.take(8) + b.skip(8).take(8));
}

/// Twelve bytes with the same number are the same bytes.
pub proof fn key12_injective(a: Seq<u8>, b: Seq<u8>)
    requires
        a.len() == 12,
        b.len() == 12,
        key12(a) == key12(b),
    ensures
        a == b,
{
    halves(0, 0, le64_at(a), le32_at(a.skip(8)) as u64);
    halves(0, 0, le64_at(b), le32_at(b.skip(8)) as u64);
    le64_round_trip(0, a, a);
    le64_round_trip(0, b, b);
    le32_round_trip(0, a.skip(8), a);
    le32_round_trip(0, b.skip(8), b);
    assert(a =~= a.take(8) + a.skip(8).take(4));
    assert(b =~= b.take(8) + b.skip(8).take(4));
}

// ---------------------------------------------------------------------------
// Sequences
// ---------------------------------------------------------------------------

/// Leaving out `a` items and then `b` more leaves out `a + b`.
pub broadcast proof fn skip_skip(s: Seq<u8>, a: int, b: int)
    requires
        0 <= a,
        0 <= b,
        a + b <= s.len(),
    ensures
        #[trigger] s.skip(a).skip(b) == s.skip(a + b),
{
    assert(s.skip(a).skip(b) =~= s.skip(a + b));
}

/// Leaving out nothing leaves everything.
pub broadcast proof fn skip_nothing(s: Seq<u8>)
    ensures
        #[trigger] s.skip(0) == s,
{
    assert(s.skip(0) =~= s);
}

/// How appending associates.
pub broadcast proof fn add_assoc(a: Seq<u8>, b: Seq<u8>, c: Seq<u8>)
    ensures
        #[trigger] ((a + b) + c) == a + (b + c),
{
    assert((a + b) + c =~= a + (b + c));
}

/// What stands behind `a` in `a + b`.
pub proof fn skip_prefix(a: Seq<u8>, b: Seq<u8>)
    ensures
        (a + b).skip(a.len() as int) == b,
{
    assert((a + b).skip(a.len() as int) =~= b);
}

/// `new` starts with everything that `old` held.
pub open spec fn extends(old: Seq<u8>, new: Seq<u8>) -> bool {
    &&& old.len() <= new.len()
    &&& forall|i: int| 0 <= i < old.len() ==> new[i] == old[i]
}

/// `n` zero bytes.
pub open spec fn zeros(n: nat) -> Seq<u8> {
    Seq::new(n, |i: int| 0u8)
}

/// How many bytes fill `n` bytes up to a multiple of four.
pub open spec fn pad_len(n: nat) -> nat {
    ((4 - n % 4) % 4) as nat
}

/// Bytes with their length in front and zero padding behind.
pub open spec fn opaque(b: Seq<u8>) -> Seq<u8> {
    be32(b.len() as u32) + b + zeros(pad_len(b.len()))
}

/// Whether two byte strings are the same.
pub fn bytes_eq(a: &[u8], b: &[u8]) -> (r: bool)
    ensures
        r == (a@ == b@),
{
    if a.len() != b.len() {
        return false;
    }
    let mut i: usize = 0;
    while i < a.len()
        invariant
            i <= a.len(),
            a@.len() == b@.len(),
            forall|j: int| 0 <= j < i ==> a@[j] == b@[j],
        decreases a.len() - i,
    {
        if a[i] != b[i] {
            return false;
        }
        i = i + 1;
    }
    assert(a@ =~= b@);
    true
}

/// A vector with the given bytes.
pub fn bytes_vec(a: &[u8]) -> (r: Vec<u8>)
    ensures
        r@ == a@,
{
    let mut out: Vec<u8> = Vec::new();
    put_bytes(&mut out, a);
    assert(out@ =~= a@);
    out
}

// ---------------------------------------------------------------------------
// Writing
// ---------------------------------------------------------------------------

/// Appends the four bytes of a number.
pub fn put_u32(out: &mut Vec<u8>, x: u32)
    ensures
        final(out)@ == old(out)@ + be32(x),
{
    out.push((x / 0x100_0000) as u8);
    out.push(((x / 0x1_0000) % 256) as u8);
    out.push(((x / 0x100) % 256) as u8);
    out.push((x % 256) as u8);
    assert(out@ =~= old(out)@ + be32(x));
}

/// Appends the eight bytes of a number.
pub fn put_u64(out: &mut Vec<u8>, x: u64)
    ensures
        final(out)@ == old(out)@ + be64(x),
{
    put_u32(out, (x / 0x1_0000_0000) as u32);
    put_u32(out, (x % 0x1_0000_0000) as u32);
    assert(out@ =~= old(out)@ + be64(x));
}

/// Appends the four bytes of a number, least significant first.
pub fn put_le32(out: &mut Vec<u8>, x: u32)
    ensures
        final(out)@ == old(out)@ + le32(x),
{
    out.push((x % 256) as u8);
    out.push(((x / 0x100) % 256) as u8);
    out.push(((x / 0x1_0000) % 256) as u8);
    out.push((x / 0x100_0000) as u8);
    assert(out@ =~= old(out)@ + le32(x));
}

/// Appends the eight bytes of a number, least significant first.
pub fn put_le64(out: &mut Vec<u8>, x: u64)
    ensures
        final(out)@ == old(out)@ + le64(x),
{
    put_le32(out, (x % 0x1_0000_0000) as u32);
    put_le32(out, (x / 0x1_0000_0000) as u32);
    assert(out@ =~= old(out)@ + le64(x));
}

/// The number that the four bytes from `i` on stand for, least significant first.
pub fn get_le32(b: &[u8], i: usize) -> (r: u32)
    requires
        i + 4 <= b@.len(),
    ensures
        r == le32_at(b@.skip(i as int)),
{
    let _: usize = b.len();
    proof {
        reveal(le32_at);
    }
    let lo: u32 = b[i] as u32 + b[i + 1] as u32 * 0x100;
    lo + b[i + 2] as u32 * 0x1_0000 + b[i + 3] as u32 * 0x100_0000
}

/// The number that the eight bytes from `i` on stand for, least significant first.
pub fn get_le64(b: &[u8], i: usize) -> (r: u64)
    requires
        i + 8 <= b@.len(),
    ensures
        r == le64_at(b@.skip(i as int)),
{
    let _: usize = b.len();
    let lo: u32 = get_le32(b, i);
    let hi: u32 = get_le32(b, i + 4);
    assert(b@.skip(i as int).skip(4) =~= b@.skip(i + 4));
    lo as u64 + hi as u64 * 0x1_0000_0000
}

/// The number that tells sixteen bytes apart.
pub fn key_of16(id: &[u8; 16]) -> (r: u128)
    ensures
        r == key16(id@),
{
    let b = vstd::array::array_as_slice(id);
    let lo: u64 = get_le64(b, 0);
    let hi: u64 = get_le64(b, 8);
    assert(b@.skip(0) =~= b@);
    lo as u128 + hi as u128 * 0x1_0000_0000_0000_0000
}

/// The number that tells twelve bytes apart.
pub fn key_of12(id: &[u8; 12]) -> (r: u128)
    ensures
        r == key12(id@),
{
    let b = vstd::array::array_as_slice(id);
    let lo: u64 = get_le64(b, 0);
    let hi: u32 = get_le32(b, 8);
    assert(b@.skip(0) =~= b@);
    lo as u128 + hi as u128 * 0x1_0000_0000_0000_0000
}

/// An array of the given bytes.
pub fn to_array<const N: usize>(b: &[u8]) -> (r: [u8; N])
    requires
        b@.len() == N,
    ensures
        r@ == b@,
{
    let mut out: [u8; N] = [0;N];
    let mut i: usize = 0;
    while i < N
        invariant
            i <= N,
            b@.len() == N,
            forall|j: int| 0 <= j < i ==> out@[j] == b@[j],
        decreases N - i,
    {
        out[i] = b[i];
        i = i + 1;
    }
    assert(out@ =~= b@);
    out
}

/// Appends a flag.
pub fn put_bool(out: &mut Vec<u8>, b: bool)
    ensures
        final(out)@ == old(out)@ + be_bool(b),
{
    put_u32(
        out,
        if b {
            1
        } else {
            0
        },
    );
}

/// Appends bytes as they are.
pub fn put_bytes(out: &mut Vec<u8>, b: &[u8])
    ensures
        final(out)@ == old(out)@ + b@,
{
    let mut i: usize = 0;
    while i < b.len()
        invariant
            i <= b.len(),
            out@ == old(out)@ + b@.take(i as int),
        decreases b.len() - i,
    {
        out.push(b[i]);
        i = i + 1;
        assert(out@ =~= old(out)@ + b@.take(i as int));
    }
    assert(b@.take(i as int) =~= b@);
}

/// Appends `n` zero bytes.
pub fn put_zeros(out: &mut Vec<u8>, n: usize)
    ensures
        final(out)@ == old(out)@ + zeros(n as nat),
{
    let mut i: usize = 0;
    assert(out@ =~= old(out)@ + zeros(0));
    while i < n
        invariant
            i <= n,
            out@ == old(out)@ + zeros(i as nat),
        decreases n - i,
    {
        out.push(0);
        i = i + 1;
        assert(out@ =~= old(out)@ + zeros(i as nat));
    }
}

/// Appends bytes with their length in front and zero padding behind.
pub fn put_opaque(out: &mut Vec<u8>, b: &[u8])
    ensures
        final(out)@ == old(out)@ + opaque(b@),
{
    let pad: usize = (4 - b.len() % 4) % 4;
    put_u32(out, #[verifier::truncate] (b.len() as u32));
    put_bytes(out, b);
    put_zeros(out, pad);
    assert(out@ =~= old(out)@ + opaque(b@));
}

// ---------------------------------------------------------------------------
// Reading
// ---------------------------------------------------------------------------

/// What is left to be read of a message.
pub struct Reader<'a> {
    pub rest: &'a [u8],
}

impl<'a> View for Reader<'a> {
    type V = Seq<u8>;

    open spec fn view(&self) -> Seq<u8> {
        self.rest@
    }
}

/// `Ok(n)` where `s` holds at least `n` bytes.
pub open spec fn need(s: Seq<u8>, n: nat) -> Result<nat, XdrError> {
    if n <= s.len() {
        Ok(n)
    } else {
        Err(XdrError::UnexpectedEof)
    }
}

impl<'a> Reader<'a> {
    /// A cursor at the start of `data`.
    pub fn new(data: &'a [u8]) -> (r: Self)
        ensures
            r@ == data@,
    {
        Reader { rest: data }
    }

    /// How many bytes are left.
    pub fn remaining(&self) -> (r: usize)
        ensures
            r == self@.len(),
    {
        self.rest.len()
    }

    /// The next `n` bytes. Where there are fewer, nothing is read.
    pub fn take(&mut self, n: usize) -> (r: Result<&'a [u8], XdrError>)
        ensures
            match need(old(self)@, n as nat) {
                Ok(m) => r is Ok && r->Ok_0@ == old(self)@.take(m as int) && final(self)@ == old(
                    self,
                )@.skip(m as int),
                Err(e) => r == Err::<&'a [u8], XdrError>(e) && final(self)@ == old(self)@,
            },
    {
        if n > self.rest.len() {
            return Err(XdrError::UnexpectedEof);
        }
        let (head, tail) = self.rest.split_at(n);
        self.rest = tail;
        assert(head@ =~= old(self)@.take(n as int));
        assert(tail@ =~= old(self)@.skip(n as int));
        Ok(head)
    }

    /// The next four bytes as a number.
    pub fn read_u32(&mut self) -> (r: Result<u32, XdrError>)
        ensures
            match need(old(self)@, 4) {
                Ok(m) => r == Ok::<u32, XdrError>(be32_at(old(self)@)) && final(self)@ == old(
                    self,
                )@.skip(4),
                Err(e) => r == Err::<u32, XdrError>(e) && final(self)@ == old(self)@,
            },
    {
        let b = self.take(4)?;
        let hi: u32 = b[0] as u32 * 0x100_0000 + b[1] as u32 * 0x1_0000;
        Ok(hi + b[2] as u32 * 0x100 + b[3] as u32)
    }

    /// The next eight bytes as a number.
    pub fn read_u64(&mut self) -> (r: Result<u64, XdrError>)
        ensures
            match need(old(self)@, 8) {
                Ok(m) => r == Ok::<u64, XdrError>(be64_at(old(self)@)) && final(self)@ == old(
                    self,
                )@.skip(8),
                Err(e) => r == Err::<u64, XdrError>(e) && final(self)@ == old(self)@,
            },
    {
        if self.rest.len() < 8 {
            return Err(XdrError::UnexpectedEof);
        }
        let hi: u32 = self.read_u32()?;
        let lo: u32 = self.read_u32()?;
        assert(self@ =~= old(self)@.skip(8));
        Ok(hi as u64 * 0x1_0000_0000 + lo as u64)
    }

    /// Passes over the next `n` bytes.
    pub fn skip_bytes(&mut self, n: usize) -> (r: Result<(), XdrError>)
        ensures
            match need(old(self)@, n as nat) {
                Ok(m) => r is Ok && final(self)@ == old(self)@.skip(m as int),
                Err(e) => r == Err::<(), XdrError>(e) && final(self)@ == old(self)@,
            },
    {
        let _ = self.take(n)?;
        Ok(())
    }
}

} // verus!
