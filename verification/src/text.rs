//! Names and paths of files, and numbers in text.

use crate::bytes::bytes_eq;
use crate::error::{fails_with, failure, Nfs4Result, Nfs4Status};
use vstd::prelude::*;
use vstd::string::StringExecFns;

verus! {

/// The bytes of a text.
pub open spec fn text_bytes(text: Seq<char>) -> Seq<u8> {
    vstd::utf8::encode_utf8(text)
}

/// What `String::from_utf8_lossy` makes of bytes.
pub uninterp spec fn lossy_text(bytes: Seq<u8>) -> Seq<char>;

/// The text of bytes that may hold anything. `String::from_utf8_lossy` makes it: bytes that are the
/// bytes of a text give that text, and others give a text that has a mark in place of what is not
/// text.
#[verifier::external_body]
pub(crate) fn text_of(bytes: &[u8]) -> (r: String)
    ensures
        r@ == lossy_text(bytes@),
        vstd::utf8::valid_utf8(bytes@) ==> r@ == vstd::utf8::decode_utf8(bytes@),
{
    String::from_utf8_lossy(bytes).into_owned()
}

/// The text of bytes, if they are the bytes of a text. `std::str::from_utf8` decides that.
#[verifier::external_body]
pub(crate) fn strict_text_of(bytes: &[u8]) -> (r: Option<String>)
    ensures
        r is Some <==> vstd::utf8::valid_utf8(bytes@),
        r is Some ==> r->Some_0@ == vstd::utf8::decode_utf8(bytes@),
{
    match std::str::from_utf8(bytes) {
        Ok(text) => Some(text.to_string()),
        Err(_) => None,
    }
}

/// What a hash begins with.
pub const FNV_OFFSET: u64 = 0xcbf2_9ce4_8422_2325;

/// What a hash is multiplied by for each byte.
pub const FNV_PRIME: u64 = 0x100_0000_01b3;

/// The FNV-1a hash of bytes: each byte is put into the hash by exclusive or, and the hash is then
/// multiplied.
pub open spec fn fnv1a(bytes: Seq<u8>) -> u64
    decreases bytes.len(),
{
    if bytes.len() == 0 {
        FNV_OFFSET
    } else {
        (fnv1a(bytes.drop_last()) ^ (bytes.last() as u64)).wrapping_mul(FNV_PRIME)
    }
}

/// The FNV-1a hash of bytes.
pub fn hash_of(bytes: &[u8]) -> (r: u64)
    ensures
        r == fnv1a(bytes@),
{
    let mut hash: u64 = FNV_OFFSET;
    let mut i: usize = 0;
    assert(bytes@.take(0) =~= Seq::empty());
    while i < bytes.len()
        invariant
            i <= bytes@.len(),
            hash == fnv1a(bytes@.take(i as int)),
        decreases bytes@.len() - i,
    {
        hash = (hash ^ (bytes[i] as u64)).wrapping_mul(FNV_PRIME);
        assert(bytes@.take(i + 1).drop_last() =~= bytes@.take(i as int));
        i = i + 1;
    }
    assert(bytes@.take(i as int) =~= bytes@);
    hash
}

// ---------------------------------------------------------------------------
// Names
// ---------------------------------------------------------------------------

/// Whether bytes can name something in a directory: there are some, none of them is a zero or a
/// slash, and they are not the names of the directory itself and of its parent.
pub open spec fn is_name(name: Seq<u8>) -> bool {
    &&& name.len() > 0
    &&& !name.contains(0)
    &&& !name.contains(47)
    &&& name != seq![46u8]
    &&& name != seq![46u8, 46u8]
}

/// Refuses a text that cannot name something in a directory.
pub fn validate_filename(name: &str) -> (r: Nfs4Result<()>)
    ensures
        if is_name(text_bytes(name@)) {
            r is Ok
        } else {
            fails_with(r, Nfs4Status::Inval)
        },
{
    let bytes = name.as_bytes();
    if bytes.len() == 0 {
        return failure(Nfs4Status::Inval);
    }
    let mut i: usize = 0;
    while i < bytes.len()
        invariant
            i <= bytes@.len(),
            bytes@ == text_bytes(name@),
            forall|j: int| 0 <= j < i ==> bytes@[j] != 0 && bytes@[j] != 47,
        decreases bytes.len() - i,
    {
        if bytes[i] == 0 || bytes[i] == 47 {
            assert(bytes@.contains(bytes@[i as int]));
            return failure(Nfs4Status::Inval);
        }
        i = i + 1;
    }
    let dot: [u8; 1] = [46];
    let dots: [u8; 2] = [46, 46];
    assert(dot@ =~= seq![46u8]);
    assert(dots@ =~= seq![46u8, 46u8]);
    if bytes_eq(bytes, vstd::array::array_as_slice(&dot)) || bytes_eq(
        bytes,
        vstd::array::array_as_slice(&dots),
    ) {
        return failure(Nfs4Status::Inval);
    }
    Ok(())
}

/// Whether a name is that of the directory itself.
pub fn is_dot(name: &str) -> (r: bool)
    ensures
        r == (text_bytes(name@) == seq![46u8]),
{
    let dot: [u8; 1] = [46];
    assert(dot@ =~= seq![46u8]);
    bytes_eq(name.as_bytes(), vstd::array::array_as_slice(&dot))
}

/// Whether a name is that of the directory above.
pub fn is_dot_dot(name: &str) -> (r: bool)
    ensures
        r == (text_bytes(name@) == seq![46u8, 46u8]),
{
    let dots: [u8; 2] = [46, 46];
    assert(dots@ =~= seq![46u8, 46u8]);
    bytes_eq(name.as_bytes(), vstd::array::array_as_slice(&dots))
}

// ---------------------------------------------------------------------------
// Paths
// ---------------------------------------------------------------------------

/// The path of the root.
pub open spec fn root_path() -> Seq<char> {
    seq!['/']
}

/// The path of the root.
pub fn root() -> (r: String)
    ensures
        r@ == root_path(),
{
    proof {
        reveal_strlit("/");
    }
    let r = String::from_str("/");
    assert(r@ =~= root_path());
    r
}

/// Whether a path is that of the root.
pub fn is_root(path: &str) -> (r: bool)
    ensures
        r == (path@ == root_path()),
{
    let r = root();
    String::from_str(path) == r
}

/// The path of what is called `name` in the directory `parent`.
pub open spec fn child_path(parent: Seq<char>, name: Seq<char>) -> Seq<char> {
    if parent == root_path() {
        root_path() + name
    } else {
        parent + root_path() + name
    }
}

/// The path of what is called `name` in the directory `parent`.
pub fn build_child_path(parent: &str, name: &str) -> (r: String)
    ensures
        r@ == child_path(parent@, name@),
{
    if is_root(parent) {
        root().concat(name)
    } else {
        String::from_str(parent).concat(root().as_str()).concat(name)
    }
}

/// Where the last slash stands among the first `n` bytes.
pub open spec fn last_slash(path: Seq<u8>, n: int) -> Option<int>
    decreases n,
{
    if n <= 0 || n > path.len() {
        None
    } else if path[n - 1] == 47 {
        Some(n - 1)
    } else {
        last_slash(path, n - 1)
    }
}

/// The bytes of the path of the directory that a path leads into: what stands before the last
/// slash, or the root.
pub open spec fn parent_bytes(path: Seq<u8>) -> Seq<u8> {
    match last_slash(path, path.len() as int) {
        Some(i) => if i == 0 {
            seq![47u8]
        } else {
            path.take(i)
        },
        None => seq![47u8],
    }
}

proof fn root_is_slash()
    ensures
        text_bytes(root_path()) == seq![47u8],
{
    vstd::utf8::is_ascii_chars_encode_utf8(root_path());
    assert(text_bytes(root_path()) =~= seq![47u8]);
}

/// The path of the directory that a path leads into.
pub fn parent_path(path: &str) -> (r: String)
    ensures
        text_bytes(r@) == parent_bytes(text_bytes(path@)),
{
    let bytes = path.as_bytes();
    proof {
        root_is_slash();
    }
    let mut n: usize = bytes.len();
    while n > 0
        invariant
            n <= bytes@.len(),
            bytes@ == text_bytes(path@),
            text_bytes(root_path()) == seq![47u8],
            last_slash(bytes@, bytes@.len() as int) == last_slash(bytes@, n as int),
        decreases n,
    {
        if bytes[n - 1] == 47 {
            let i: usize = n - 1;
            if i == 0 {
                return root();
            }
            proof {
                vstd::utf8::encode_utf8_valid_utf8(path@);
                assert(!vstd::utf8::is_continuation_byte(47u8)) by (bit_vector);
                vstd::utf8::is_char_boundary_iff_not_is_continuation_byte(bytes@, i as int);
            }
            let (head, _tail) = path.split_at(i);
            assert(text_bytes(head@) =~= bytes@.take(i as int));
            return String::from_str(head);
        }
        n = n - 1;
    }
    root()
}

/// What is called by a name in a directory lies in that directory.
pub proof fn law_child_lies_in_its_parent(parent: Seq<char>, name: Seq<char>)
    requires
        is_name(text_bytes(name)),
        parent == root_path() || (text_bytes(parent).len() > 0),
    ensures
        parent_bytes(text_bytes(child_path(parent, name))) == text_bytes(parent),
{
    root_is_slash();
    let p = text_bytes(parent);
    let n = text_bytes(name);
    if parent == root_path() {
        encode_concat(root_path(), name);
        let all = seq![47u8] + n;
        no_slash_behind(all, 0);
    } else {
        encode_concat(parent + root_path(), name);
        encode_concat(parent, root_path());
        let all = p + seq![47u8] + n;
        no_slash_behind(all, p.len() as int);
        assert(all.take(p.len() as int) =~= p);
    }
}

proof fn no_slash_behind(all: Seq<u8>, i: int)
    requires
        0 <= i < all.len(),
        all[i] == 47,
        forall|j: int| i < j < all.len() ==> all[j] != 47,
    ensures
        last_slash(all, all.len() as int) == Some(i),
{
    no_slash_from(all, i, all.len() as int);
}

proof fn no_slash_from(all: Seq<u8>, i: int, n: int)
    requires
        0 <= i < n <= all.len(),
        all[i] == 47,
        forall|j: int| i < j < n ==> all[j] != 47,
    ensures
        last_slash(all, n) == Some(i),
    decreases n,
{
    if n - 1 > i {
        no_slash_from(all, i, n - 1);
    }
}

/// The bytes of two texts, one behind the other.
proof fn encode_concat(a: Seq<char>, b: Seq<char>)
    ensures
        text_bytes(a + b) == text_bytes(a) + text_bytes(b),
    decreases a.len(),
{
    if a.len() == 0 {
        assert(a + b =~= b);
        assert(text_bytes(a) =~= Seq::<u8>::empty());
        assert(text_bytes(a) + text_bytes(b) =~= text_bytes(b));
    } else {
        assert((a + b).drop_first() =~= a.drop_first() + b);
        encode_concat(a.drop_first(), b);
        assert((a + b)[0] == a[0]);
        assert(text_bytes(a) + text_bytes(b) =~= vstd::utf8::encode_scalar(a[0] as u32) + (
        text_bytes(a.drop_first()) + text_bytes(b)));
    }
}

// ---------------------------------------------------------------------------
// Numbers
// ---------------------------------------------------------------------------

/// Whether all bytes are decimal digits.
pub open spec fn all_digits(s: Seq<u8>) -> bool {
    forall|i: int| 0 <= i < s.len() ==> 48 <= #[trigger] s[i] <= 57
}

/// The number that decimal digits stand for.
pub open spec fn digits_value(s: Seq<u8>) -> nat
    decreases s.len(),
{
    if s.len() == 0 {
        0
    } else {
        digits_value(s.drop_last()) * 10 + (s.last() - 48) as nat
    }
}

/// What stands behind a plus sign, if there is one.
pub open spec fn unsigned_part(s: Seq<u8>) -> Seq<u8> {
    if s.len() > 0 && s[0] == 43 {
        s.skip(1)
    } else {
        s
    }
}

/// The number that bytes stand for, if they are digits, perhaps behind a plus sign, and the number
/// is not over `most`.
#[verifier::opaque]
pub open spec fn number_up_to(s: Seq<u8>, most: u64) -> Option<u64> {
    let d = unsigned_part(s);
    if d.len() > 0 && all_digits(d) && digits_value(d) <= most {
        Some(digits_value(d) as u64)
    } else {
        None
    }
}

/// The number that bytes stand for, if it takes no more than thirty-two bits.
pub open spec fn number_in(s: Seq<u8>) -> Option<u32> {
    match number_up_to(s, u32::MAX as u64) {
        Some(n) => Some(n as u32),
        None => None,
    }
}

proof fn value_grows(s: Seq<u8>, i: int)
    requires
        0 <= i <= s.len(),
        all_digits(s),
    ensures
        digits_value(s.take(i)) <= digits_value(s),
    decreases s.len(),
{
    if i == s.len() {
        assert(s.take(i) =~= s);
    } else {
        assert(s.drop_last().take(i) =~= s.take(i));
        value_grows(s.drop_last(), i);
    }
}

/// The number that bytes stand for, if they stand for one that takes no more than thirty-two bits.
pub fn parse_number(s: &[u8]) -> (r: Option<u32>)
    ensures
        r == number_in(s@),
{
    match parse_up_to(s, u32::MAX as u64) {
        Some(n) => {
            assert(n <= u32::MAX) by {
                reveal(number_up_to);
            }
            Some(n as u32)
        },
        None => None,
    }
}

/// The number that bytes stand for, if they stand for one that is not over `most`.
pub fn parse_up_to(s: &[u8], most: u64) -> (r: Option<u64>)
    ensures
        r == number_up_to(s@, most),
        r is Some ==> r->Some_0 <= most,
{
    reveal(number_up_to);
    let start: usize = if s.len() > 0 && s[0] == 43 {
        1
    } else {
        0
    };
    let ghost d = unsigned_part(s@);
    assert(d =~= s@.skip(start as int));
    if s.len() == start {
        return None;
    }
    let mut i: usize = start;
    let mut value: u128 = 0;
    assert(d.take(0) =~= Seq::empty());
    while i < s.len()
        invariant
            start <= i <= s@.len(),
            d == unsigned_part(s@),
            d == s@.skip(start as int),
            d.len() > 0,
            value <= most,
            all_digits(d.take(i - start)),
            value == digits_value(d.take(i - start)),
        decreases s.len() - i,
    {
        reveal(number_up_to);
        let b: u8 = s[i];
        let ghost k = i - start;
        assert(d[k] == b);
        if b < 48 || b > 57 {
            assert(!all_digits(d));
            return None;
        }
        proof {
            assert(d.take(k + 1).drop_last() =~= d.take(k));
            assert(d.take(k + 1).last() == b);
            assert forall|j: int| 0 <= j < k + 1 implies 48 <= #[trigger] d.take(k + 1)[j]
                <= 57 by {
                if j < k {
                    assert(d.take(k)[j] == d[j]);
                }
            }
        }
        value = value * 10 + (b - 48) as u128;
        if value > most as u128 {
            proof {
                if all_digits(d) {
                    value_grows(d, k + 1);
                }
            }
            return None;
        }
        i = i + 1;
    }
    assert(d.take(i - start) =~= d);
    Some(value as u64)
}

/// A number in decimal digits.
pub open spec fn decimal(n: nat) -> Seq<u8>
    decreases n,
{
    if n < 10 {
        seq![(48 + n) as u8]
    } else {
        decimal(n / 10).push((48 + n % 10) as u8)
    }
}

/// Appends a number in decimal digits.
pub fn put_decimal(out: &mut Vec<u8>, n: u64)
    ensures
        final(out)@ == old(out)@ + decimal(n as nat),
    decreases n,
{
    let ghost o = out@;
    if n < 10 {
        out.push((48 + n) as u8);
    } else {
        put_decimal(out, n / 10);
        out.push((48 + n % 10) as u8);
    }
    assert(out@ =~= o + decimal(n as nat));
}

/// The digits of a number give the number back.
pub proof fn law_decimal_reads_back(n: nat)
    ensures
        all_digits(decimal(n)),
        decimal(n).len() > 0,
        digits_value(decimal(n)) == n,
    decreases n,
{
    if n >= 10 {
        law_decimal_reads_back(n / 10);
        assert(decimal(n).drop_last() =~= decimal(n / 10));
    } else {
        assert(decimal(n).drop_last() =~= Seq::<u8>::empty());
        reveal_with_fuel(digits_value, 2);
    }
}

/// A digit as text.
pub open spec fn digit(d: nat) -> char {
    (48 + d) as char
}

/// A number as text, in decimal digits.
pub open spec fn decimal_text(n: nat) -> Seq<char>
    decreases n,
{
    if n < 10 {
        seq![digit(n)]
    } else {
        decimal_text(n / 10).push(digit(n % 10))
    }
}

fn digit_of(d: u64) -> (r: &'static str)
    requires
        d < 10,
    ensures
        r@ == seq![digit(d as nat)],
{
    proof {
        reveal_strlit("0");
        reveal_strlit("1");
        reveal_strlit("2");
        reveal_strlit("3");
        reveal_strlit("4");
        reveal_strlit("5");
        reveal_strlit("6");
        reveal_strlit("7");
        reveal_strlit("8");
        reveal_strlit("9");
    }
    let r = match d {
        0 => "0",
        1 => "1",
        2 => "2",
        3 => "3",
        4 => "4",
        5 => "5",
        6 => "6",
        7 => "7",
        8 => "8",
        _ => "9",
    };
    assert(r@ =~= seq![digit(d as nat)]);
    r
}

/// Appends a number to a text.
pub fn push_decimal(s: &mut String, n: u64)
    ensures
        final(s)@ == old(s)@ + decimal_text(n as nat),
    decreases n,
{
    let ghost o = s@;
    if n < 10 {
        s.append(digit_of(n));
    } else {
        push_decimal(s, n / 10);
        s.append(digit_of(n % 10));
    }
    assert(s@ =~= o + decimal_text(n as nat));
}

} // verus!
