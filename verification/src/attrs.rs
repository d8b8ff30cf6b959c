//! File attributes as they are sent: a mask that says which, and their values in order.

use crate::bytes::{
    add_assoc, be32, be64, be_bool, bytes_eq, opaque, put_bool, put_opaque, put_u32, put_u64,
    Reader, XdrError,
};
use crate::error::{fails_with, failure, Nfs4Result, Nfs4Status};
use crate::text::{number_in, parse_number, text_bytes};
use crate::types::{Fattr4, FileAttrs, Nfs4FileHandle, Nfstime4};
use crate::xdr::{Decode, XDR};
use vstd::prelude::*;

verus! {

/// Which attributes there are.
pub const FATTR4_SUPPORTED_ATTRS: u32 = 0;

/// What the file is.
pub const FATTR4_TYPE: u32 = 1;

/// Whether handles cease to be valid.
pub const FATTR4_FH_EXPIRE_TYPE: u32 = 2;

/// A number that changes with the file.
pub const FATTR4_CHANGE: u32 = 3;

/// The length of the file.
pub const FATTR4_SIZE: u32 = 4;

/// Whether there are hard links.
pub const FATTR4_LINK_SUPPORT: u32 = 5;

/// Whether there are symbolic links.
pub const FATTR4_SYMLINK_SUPPORT: u32 = 6;

/// Whether there are named attributes.
pub const FATTR4_NAMED_ATTR: u32 = 7;

/// Which file system the file is in.
pub const FATTR4_FSID: u32 = 8;

/// Whether different handles mean different files.
pub const FATTR4_UNIQUE_HANDLES: u32 = 9;

/// How long a lease lasts, in seconds.
pub const FATTR4_LEASE_TIME: u32 = 10;

/// Which access entries there can be.
pub const FATTR4_ACLSUPPORT: u32 = 13;

/// Whether times can be set.
pub const FATTR4_CANSETTIME: u32 = 15;

/// Whether names that differ in case are the same.
pub const FATTR4_CASE_INSENSITIVE: u32 = 16;

/// Whether names keep their case.
pub const FATTR4_CASE_PRESERVING: u32 = 17;

/// Whether giving files away is restricted.
pub const FATTR4_CHOWN_RESTRICTED: u32 = 18;

/// The handle of the file.
pub const FATTR4_FILEHANDLE: u32 = 19;

/// The number of the file.
pub const FATTR4_FILEID: u32 = 20;

/// How many files the client may still make.
pub const FATTR4_FILES_AVAIL: u32 = 21;

/// How many files may still be made.
pub const FATTR4_FILES_FREE: u32 = 22;

/// How many files there may be.
pub const FATTR4_FILES_TOTAL: u32 = 23;

/// Whether all files have the same attributes.
pub const FATTR4_HOMOGENEOUS: u32 = 26;

/// The greatest length of a file.
pub const FATTR4_MAXFILESIZE: u32 = 27;

/// The greatest number of links.
pub const FATTR4_MAXLINK: u32 = 28;

/// The greatest length of a name.
pub const FATTR4_MAXNAME: u32 = 29;

/// How much is read at a time.
pub const FATTR4_MAXREAD: u32 = 30;

/// How much is written at a time.
pub const FATTR4_MAXWRITE: u32 = 31;

/// Who may do what with the file.
pub const FATTR4_MODE: u32 = 33;

/// Whether names that are too long are refused.
pub const FATTR4_NO_TRUNC: u32 = 34;

/// How many links the file has.
pub const FATTR4_NUMLINKS: u32 = 35;

/// The name of the owner.
pub const FATTR4_OWNER: u32 = 36;

/// The name of the group.
pub const FATTR4_OWNER_GROUP: u32 = 37;

/// Which device the file is.
pub const FATTR4_RAWDEV: u32 = 41;

/// How many bytes the client may still take.
pub const FATTR4_SPACE_AVAIL: u32 = 42;

/// How many bytes are free.
pub const FATTR4_SPACE_FREE: u32 = 43;

/// How many bytes there are.
pub const FATTR4_SPACE_TOTAL: u32 = 44;

/// How many bytes the file takes.
pub const FATTR4_SPACE_USED: u32 = 45;

/// When the file was last read.
pub const FATTR4_TIME_ACCESS: u32 = 47;

/// How fine times are.
pub const FATTR4_TIME_DELTA: u32 = 51;

/// When the attributes were last changed.
pub const FATTR4_TIME_METADATA: u32 = 52;

/// When the contents were last changed.
pub const FATTR4_TIME_MODIFY: u32 = 53;

/// The number of the file that is mounted on.
pub const FATTR4_MOUNTED_ON_FILEID: u32 = 55;

/// The attributes among the first thirty-two that there are.
pub const SUPPORTED_WORD0: u32 = 0xfcff_a7ff;

/// The attributes among the next thirty-two that there are.
pub const SUPPORTED_WORD1: u32 = 0x00b8_be3e;

/// The bytes of the mask that says which attributes there are.
pub open spec fn supported_bytes() -> Seq<u8> {
    be32(2) + be32(SUPPORTED_WORD0) + be32(SUPPORTED_WORD1)
}

/// The name that stands in for that of an owner or a group without one.
pub open spec fn nobody() -> Seq<u8> {
    // "nobody"
    seq![110u8, 111u8, 98u8, 111u8, 100u8, 121u8]
}

/// The name of an owner or a group as it is sent.
pub open spec fn owner_bytes(name: Seq<char>) -> Seq<u8> {
    if text_bytes(name).len() == 0 {
        nobody()
    } else {
        text_bytes(name)
    }
}

/// The value of an attribute as it is sent, if there is such an attribute.
pub open spec fn attr_value(attrs: FileAttrs, fh: Option<Seq<u8>>, bit: u32) -> Option<Seq<u8>> {
    if bit == FATTR4_SUPPORTED_ATTRS {
        Some(supported_bytes())
    } else if bit == FATTR4_TYPE {
        Some(be32(attrs.file_type.code_of()))
    } else if bit == FATTR4_FH_EXPIRE_TYPE {
        Some(be32(0))
    } else if bit == FATTR4_CHANGE {
        Some(be64(attrs.mtime.millis() as u64))
    } else if bit == FATTR4_SIZE {
        Some(be64(attrs.size))
    } else if bit == FATTR4_LINK_SUPPORT {
        Some(be_bool(true))
    } else if bit == FATTR4_SYMLINK_SUPPORT {
        Some(be_bool(true))
    } else if bit == FATTR4_NAMED_ATTR {
        Some(be_bool(false))
    } else if bit == FATTR4_FSID {
        Some(be64(1) + be64(0))
    } else if bit == FATTR4_UNIQUE_HANDLES {
        Some(be_bool(true))
    } else if bit == FATTR4_LEASE_TIME {
        Some(be32(90))
    } else if bit == FATTR4_ACLSUPPORT {
        Some(be32(3))
    } else if bit == FATTR4_CANSETTIME {
        Some(be_bool(true))
    } else if bit == FATTR4_CASE_INSENSITIVE {
        Some(be_bool(false))
    } else if bit == FATTR4_CASE_PRESERVING {
        Some(be_bool(true))
    } else if bit == FATTR4_CHOWN_RESTRICTED {
        Some(be_bool(true))
    } else if bit == FATTR4_FILEHANDLE {
        match fh {
            Some(h) => Some(opaque(h)),
            None => None,
        }
    } else if bit == FATTR4_FILEID {
        Some(be64(attrs.fileid))
    } else if bit == FATTR4_FILES_AVAIL {
        Some(be64(0x7fff_ffff_ffff_ffff))
    } else if bit == FATTR4_FILES_FREE {
        Some(be64(0x7fff_ffff_ffff_ffff))
    } else if bit == FATTR4_FILES_TOTAL {
        Some(be64(u64::MAX))
    } else if bit == FATTR4_HOMOGENEOUS {
        Some(be_bool(true))
    } else if bit == FATTR4_MAXFILESIZE {
        Some(be64(0x7fff_ffff_ffff_ffff))
    } else if bit == FATTR4_MAXLINK {
        Some(be32(u32::MAX))
    } else if bit == FATTR4_MAXNAME {
        Some(be32(255))
    } else if bit == FATTR4_MAXREAD {
        Some(be64(0x10_0000))
    } else if bit == FATTR4_MAXWRITE {
        Some(be64(0x10_0000))
    } else if bit == FATTR4_MODE {
        Some(be32(attrs.mode))
    } else if bit == FATTR4_NO_TRUNC {
        Some(be_bool(true))
    } else if bit == FATTR4_NUMLINKS {
        Some(be32(attrs.nlink))
    } else if bit == FATTR4_OWNER {
        Some(opaque(owner_bytes(attrs.owner@)))
    } else if bit == FATTR4_OWNER_GROUP {
        Some(opaque(owner_bytes(attrs.group@)))
    } else if bit == FATTR4_RAWDEV {
        Some(be32(0) + be32(0))
    } else if bit == FATTR4_SPACE_AVAIL {
        Some(be64(0x100_0000_0000))
    } else if bit == FATTR4_SPACE_FREE {
        Some(be64(0x100_0000_0000))
    } else if bit == FATTR4_SPACE_TOTAL {
        Some(be64(0xa00_0000_0000))
    } else if bit == FATTR4_SPACE_USED {
        Some(be64(attrs.used))
    } else if bit == FATTR4_TIME_ACCESS {
        Some(attrs.atime.encoding())
    } else if bit == FATTR4_TIME_DELTA {
        Some(be64(0) + be32(1))
    } else if bit == FATTR4_TIME_METADATA {
        Some(attrs.ctime.encoding())
    } else if bit == FATTR4_TIME_MODIFY {
        Some(attrs.mtime.encoding())
    } else if bit == FATTR4_MOUNTED_ON_FILEID {
        Some(be64(attrs.fileid))
    } else {
        None
    }
}

/// Whether there is an attribute of the given number, whatever the file.
pub open spec fn attr_known(bit: u32) -> bool {
    bit == FATTR4_SUPPORTED_ATTRS
        || bit == FATTR4_TYPE
        || bit == FATTR4_FH_EXPIRE_TYPE
        || bit == FATTR4_CHANGE
        || bit == FATTR4_SIZE
        || bit == FATTR4_LINK_SUPPORT
        || bit == FATTR4_SYMLINK_SUPPORT
        || bit == FATTR4_NAMED_ATTR
        || bit == FATTR4_FSID
        || bit == FATTR4_UNIQUE_HANDLES
        || bit == FATTR4_LEASE_TIME
        || bit == FATTR4_ACLSUPPORT
        || bit == FATTR4_CANSETTIME
        || bit == FATTR4_CASE_INSENSITIVE
        || bit == FATTR4_CASE_PRESERVING
        || bit == FATTR4_CHOWN_RESTRICTED
        || bit == FATTR4_FILEHANDLE
        || bit == FATTR4_FILEID
        || bit == FATTR4_FILES_AVAIL
        || bit == FATTR4_FILES_FREE
        || bit == FATTR4_FILES_TOTAL
        || bit == FATTR4_HOMOGENEOUS
        || bit == FATTR4_MAXFILESIZE
        || bit == FATTR4_MAXLINK
        || bit == FATTR4_MAXNAME
        || bit == FATTR4_MAXREAD
        || bit == FATTR4_MAXWRITE
        || bit == FATTR4_MODE
        || bit == FATTR4_NO_TRUNC
        || bit == FATTR4_NUMLINKS
        || bit == FATTR4_OWNER
        || bit == FATTR4_OWNER_GROUP
        || bit == FATTR4_RAWDEV
        || bit == FATTR4_SPACE_AVAIL
        || bit == FATTR4_SPACE_FREE
        || bit == FATTR4_SPACE_TOTAL
        || bit == FATTR4_SPACE_USED
        || bit == FATTR4_TIME_ACCESS
        || bit == FATTR4_TIME_DELTA
        || bit == FATTR4_TIME_METADATA
        || bit == FATTR4_TIME_MODIFY
        || bit == FATTR4_MOUNTED_ON_FILEID
}

/// The mask that says which attributes there are lists exactly those.
pub proof fn law_supported_attributes_are_listed(bit: u32)
    requires
        bit < 64,
    ensures
        asked_for(seq![SUPPORTED_WORD0, SUPPORTED_WORD1], bit) <==> attr_known(bit),
{
    if bit < 32 {
        word0_lists(bit);
    } else {
        word1_lists((bit - 32) as u32);
    }
}

proof fn word0_lists(i: u32)
    by (bit_vector)
    requires
        i < 32,
    ensures
        (0xfcff_a7ffu32 & (1u32 << i)) != 0 <==> (i <= 10 || i == 13 || (15 <= i && i <= 23) || i
            >= 26),
{
}

proof fn word1_lists(i: u32)
    by (bit_vector)
    requires
        i < 32,
    ensures
        (0x00b8_be3eu32 & (1u32 << i)) != 0 <==> ((1 <= i && i <= 5) || (9 <= i && i <= 13) || i == 15
            || (19 <= i && i <= 21) || i == 23),
{
}

/// Whether a mask asks for the attribute of the given number.
pub open spec fn asked_for(mask: Seq<u32>, bit: u32) -> bool {
    bit / 32 < mask.len() && (mask[(bit / 32) as int] & (1u32 << (bit % 32))) != 0
}

fn is_asked_for(mask: &[u32], bit: u32) -> (r: bool)
    ensures
        r == asked_for(mask@, bit),
{
    let word: usize = (bit / 32) as usize;
    word < mask.len() && (mask[word] & (1u32 << (bit % 32))) != 0
}

/// Whether a value is sent for the attribute of the given number.
pub open spec fn sent(attrs: FileAttrs, fh: Option<Seq<u8>>, request: Seq<u32>, bit: u32) -> bool {
    asked_for(request, bit) && attr_value(attrs, fh, bit) is Some
}

/// The values of the attributes from `from` up to `to` that are asked for, one behind the other.
pub open spec fn values(
    attrs: FileAttrs,
    fh: Option<Seq<u8>>,
    request: Seq<u32>,
    from: u32,
    to: u32,
) -> Seq<u8>
    decreases to,
{
    if to <= from {
        Seq::empty()
    } else {
        let bit = (to - 1) as u32;
        let before = values(attrs, fh, request, from, bit);
        if sent(attrs, fh, request, bit) {
            before + attr_value(attrs, fh, bit)->Some_0
        } else {
            before
        }
    }
}

fn put_fsid(vals: &mut Vec<u8>)
    ensures
        final(vals)@ == old(vals)@ + (be64(1) + be64(0)),
{
    put_u64(vals, 1);
    put_u64(vals, 0);
    assert(vals@ =~= old(vals)@ + (be64(1) + be64(0)));
}

fn put_rawdev(vals: &mut Vec<u8>)
    ensures
        final(vals)@ == old(vals)@ + (be32(0) + be32(0)),
{
    put_u32(vals, 0);
    put_u32(vals, 0);
    assert(vals@ =~= old(vals)@ + (be32(0) + be32(0)));
}

fn put_time_delta(vals: &mut Vec<u8>)
    ensures
        final(vals)@ == old(vals)@ + (be64(0) + be32(1)),
{
    put_u64(vals, 0);
    put_u32(vals, 1);
    assert(vals@ =~= old(vals)@ + (be64(0) + be32(1)));
}

fn put_time(vals: &mut Vec<u8>, time: &Nfstime4)
    ensures
        final(vals)@ == old(vals)@ + time.encoding(),
{
    let _ = time.serialize(vals);
}

/// Appends the mask that says which attributes there are.
pub fn encode_supported_attrs(vals: &mut Vec<u8>)
    ensures
        final(vals)@ == old(vals)@ + supported_bytes(),
{
    put_u32(vals, 2);
    put_u32(vals, SUPPORTED_WORD0);
    put_u32(vals, SUPPORTED_WORD1);
    assert(vals@ =~= old(vals)@ + supported_bytes());
}

/// Appends the name of an owner or a group.
fn put_owner(vals: &mut Vec<u8>, name: &String) -> (r: Result<(), XdrError>)
    ensures
        if owner_bytes(name@).len() < u32::MAX {
            r is Ok && final(vals)@ == old(vals)@ + opaque(owner_bytes(name@))
        } else {
            r is Err
        },
{
    let bytes = name.as_str().as_bytes();
    if bytes.len() == 0 {
        let text: [u8; 6] = [110, 111, 98, 111, 100, 121];
        assert(text@ =~= nobody());
        put_opaque(vals, vstd::array::array_as_slice(&text));
    } else {
        if bytes.len() >= u32::MAX as usize {
            return Err(XdrError::InvalidData);
        }
        put_opaque(vals, bytes);
    }
    Ok(())
}

/// The bytes of the handle that is pointed to.
pub open spec fn handle_bytes(fh: Option<&Nfs4FileHandle>) -> Option<Seq<u8>> {
    match fh {
        Some(h) => Some(h@),
        None => None,
    }
}

/// Appends the value of an attribute among the first thirty-two, if there is such an attribute.
fn put_attr0(vals: &mut Vec<u8>, attrs: &FileAttrs, fh: Option<&Nfs4FileHandle>, bit: u32) -> (r:
    bool)
    requires
        bit < 32,
        attrs.mtime.countable(),
    ensures
        match attr_value(*attrs, handle_bytes(fh), bit) {
            Some(v) => r && final(vals)@ == old(vals)@ + v,
            None => !r && final(vals)@ == old(vals)@,
        },
{
    match bit {
        FATTR4_SUPPORTED_ATTRS => encode_supported_attrs(vals),
        FATTR4_TYPE => put_u32(vals, attrs.file_type.code()),
        FATTR4_FH_EXPIRE_TYPE => put_u32(vals, 0),
        FATTR4_CHANGE => put_u64(vals, #[verifier::truncate] (attrs.mtime.to_millis() as u64)),
        FATTR4_SIZE => put_u64(vals, attrs.size),
        FATTR4_LINK_SUPPORT => put_bool(vals, true),
        FATTR4_SYMLINK_SUPPORT => put_bool(vals, true),
        FATTR4_NAMED_ATTR => put_bool(vals, false),
        FATTR4_FSID => put_fsid(vals),
        FATTR4_UNIQUE_HANDLES => put_bool(vals, true),
        FATTR4_LEASE_TIME => put_u32(vals, 90),
        FATTR4_ACLSUPPORT => put_u32(vals, 3),
        FATTR4_CANSETTIME => put_bool(vals, true),
        FATTR4_CASE_INSENSITIVE => put_bool(vals, false),
        FATTR4_CASE_PRESERVING => put_bool(vals, true),
        FATTR4_CHOWN_RESTRICTED => put_bool(vals, true),
        FATTR4_FILEHANDLE => match fh {
            Some(h) => put_opaque(vals, h.data.as_slice()),
            None => {
                return false;
            },
        },
        FATTR4_FILEID => put_u64(vals, attrs.fileid),
        FATTR4_FILES_AVAIL => put_u64(vals, u64::MAX / 2),
        FATTR4_FILES_FREE => put_u64(vals, u64::MAX / 2),
        FATTR4_FILES_TOTAL => put_u64(vals, u64::MAX),
        FATTR4_HOMOGENEOUS => put_bool(vals, true),
        FATTR4_MAXFILESIZE => put_u64(vals, i64::MAX as u64),
        FATTR4_MAXLINK => put_u32(vals, u32::MAX),
        FATTR4_MAXNAME => put_u32(vals, 255),
        FATTR4_MAXREAD => put_u64(vals, 0x10_0000),
        FATTR4_MAXWRITE => put_u64(vals, 0x10_0000),
        _ => {
            return false;
        },
    }
    true
}

/// Appends the value of an attribute among the next thirty-two, if there is such an attribute.
fn put_attr1(vals: &mut Vec<u8>, attrs: &FileAttrs, bit: u32) -> (r: Result<bool, XdrError>)
    requires
        32 <= bit < 64,
    ensures
        r is Err <==> (bit == FATTR4_OWNER && owner_bytes(attrs.owner@).len() >= u32::MAX) || (bit
            == FATTR4_OWNER_GROUP && owner_bytes(attrs.group@).len() >= u32::MAX),
        r is Ok ==> match attr_value(*attrs, None, bit) {
            Some(v) => r->Ok_0 && final(vals)@ == old(vals)@ + v,
            None => !r->Ok_0 && final(vals)@ == old(vals)@,
        },
{
    match bit {
        FATTR4_MODE => put_u32(vals, attrs.mode),
        FATTR4_NO_TRUNC => put_bool(vals, true),
        FATTR4_NUMLINKS => put_u32(vals, attrs.nlink),
        FATTR4_OWNER => put_owner(vals, &attrs.owner)?,
        FATTR4_OWNER_GROUP => put_owner(vals, &attrs.group)?,
        FATTR4_RAWDEV => put_rawdev(vals),
        FATTR4_SPACE_AVAIL => put_u64(vals, 0x100_0000_0000),
        FATTR4_SPACE_FREE => put_u64(vals, 0x100_0000_0000),
        FATTR4_SPACE_TOTAL => put_u64(vals, 0xa00_0000_0000),
        FATTR4_SPACE_USED => put_u64(vals, attrs.used),
        FATTR4_TIME_ACCESS => put_time(vals, &attrs.atime),
        FATTR4_TIME_DELTA => put_time_delta(vals),
        FATTR4_TIME_METADATA => put_time(vals, &attrs.ctime),
        FATTR4_TIME_MODIFY => put_time(vals, &attrs.mtime),
        FATTR4_MOUNTED_ON_FILEID => put_u64(vals, attrs.fileid),
        _ => {
            return Ok(false);
        },
    }
    Ok(true)
}

/// Whether bit `i` of a word is set.
pub open spec fn marked(word: u32, i: u32) -> bool {
    (word & (1u32 << i)) != 0
}

/// Whether a word of a mask says which of the thirty-two attributes from `base` on are sent.
pub open spec fn word_marks(
    word: u32,
    base: u32,
    attrs: FileAttrs,
    fh: Option<Seq<u8>>,
    request: Seq<u32>,
) -> bool {
    forall|i: u32|
        i < 32 ==> (#[trigger] marked(word, i) <==> sent(attrs, fh, request, (base + i) as u32))
}

proof fn mark_one_more(word: u32, b: u32, i: u32)
    by (bit_vector)
    requires
        b < 32,
        i < 32,
    ensures
        ((word | (1u32 << b)) & (1u32 << i)) != 0 <==> ((word & (1u32 << i)) != 0 || i == b),
        (word | (1u32 << b)) != 0,
        (0u32 & (1u32 << i)) == 0,
{
}

/// Appends the values of the attributes among the first thirty-two that are asked for, and gives
/// the word that says which they are.
fn encode_word0_attrs(
    attrs: &FileAttrs,
    request: &[u32],
    fh: Option<&Nfs4FileHandle>,
    vals: &mut Vec<u8>,
) -> (word: u32)
    requires
        attrs.mtime.countable(),
    ensures
        final(vals)@ == old(vals)@ + values(*attrs, handle_bytes(fh), request@, 0, 32),
        word_marks(word, 0, *attrs, handle_bytes(fh), request@),
{
    let mut word: u32 = 0;
    let mut bit: u32 = 0;
    let ghost h = handle_bytes(fh);
    let ghost o = vals@;
    proof {
        assert forall|i: u32| i < 32 implies !#[trigger] marked(0, i) by {
            mark_one_more(0, 0, i);
        }
        assert(o + values(*attrs, h, request@, 0, 0) =~= o);
    }
    while bit < 32
        invariant
            attrs.mtime.countable(),
            bit <= 32,
            h == handle_bytes(fh),
            o == old(vals)@,
            vals@ == o + values(*attrs, h, request@, 0, bit),
            forall|i: u32|
                i < 32 ==> (#[trigger] marked(word, i) <==> i < bit && sent(*attrs, h, request@, i)),
        decreases 32 - bit,
    {
        if is_asked_for(request, bit) && put_attr0(vals, attrs, fh, bit) {
            proof {
                add_assoc(
                    o,
                    values(*attrs, h, request@, 0, bit),
                    attr_value(*attrs, h, bit)->Some_0,
                );
                assert forall|i: u32| i < 32 implies (#[trigger] marked(word | (1u32 << bit), i)
                    <==> (marked(word, i) || i == bit)) by {
                    mark_one_more(word, bit, i);
                }
            }
            word = word | (1u32 << bit);
        }
        bit = bit + 1;
    }
    word
}

/// Appends the values of the attributes among the next thirty-two that are asked for, and gives
/// the word that says which they are.
fn encode_word1_attrs(attrs: &FileAttrs, request: &[u32], vals: &mut Vec<u8>) -> (r: Result<
    u32,
    XdrError,
>)
    requires
        attrs.mtime.countable(),
    ensures
        r is Err ==> names_wanted_do_not_fit(*attrs, request@),
        r is Ok ==> {
            &&& final(vals)@ == old(vals)@ + values(*attrs, None, request@, 32, 64)
            &&& word_marks(r->Ok_0, 32, *attrs, None, request@)
            &&& r->Ok_0 != 0 <==> second_word_sent(*attrs, request@)
            &&& !names_wanted_do_not_fit(*attrs, request@)
        },
{
    let mut word: u32 = 0;
    let mut bit: u32 = 32;
    let ghost o = vals@;
    proof {
        assert forall|i: u32| i < 32 implies !#[trigger] marked(0, i) by {
            mark_one_more(0, 0, i);
        }
        assert(o + values(*attrs, None, request@, 32, 32) =~= o);
    }
    while bit < 64
        invariant
            attrs.mtime.countable(),
            32 <= bit <= 64,
            o == old(vals)@,
            vals@ == o + values(*attrs, None, request@, 32, bit),
            forall|i: u32|
                i < 32 ==> (#[trigger] marked(word, i) <==> i + 32 < bit && sent(
                    *attrs,
                    None,
                    request@,
                    (i + 32) as u32,
                )),
            word != 0 <==> exists|b: u32| 32 <= b < bit && #[trigger] sent(*attrs, None, request@, b),
            bit > FATTR4_OWNER && asked_for(request@, FATTR4_OWNER) ==> owner_bytes(
                attrs.owner@,
            ).len() < u32::MAX,
            bit > FATTR4_OWNER_GROUP && asked_for(request@, FATTR4_OWNER_GROUP) ==> owner_bytes(
                attrs.group@,
            ).len() < u32::MAX,
        decreases 64 - bit,
    {
        if is_asked_for(request, bit) {
            let ghost before = vals@;
            if put_attr1(vals, attrs, bit)? {
                let b: u32 = bit - 32;
                proof {
                    add_assoc(
                        o,
                        values(*attrs, None, request@, 32, bit),
                        attr_value(*attrs, None, bit)->Some_0,
                    );
                    assert(sent(*attrs, None, request@, bit));
                    assert forall|i: u32| i < 32 implies (#[trigger] marked(word | (1u32 << b), i)
                        <==> (marked(word, i) || i == b)) by {
                        mark_one_more(word, b, i);
                    }
                    mark_one_more(word, b, 0);
                }
                word = word | (1u32 << b);
            }
        }
        bit = bit + 1;
    }
    Ok(word)
}

/// Whether a name is asked for that cannot be sent.
pub open spec fn names_wanted_do_not_fit(attrs: FileAttrs, request: Seq<u32>) -> bool {
    ||| asked_for(request, FATTR4_OWNER) && owner_bytes(attrs.owner@).len() >= u32::MAX
    ||| asked_for(request, FATTR4_OWNER_GROUP) && owner_bytes(attrs.group@).len() >= u32::MAX
}

/// Whether any of the second thirty-two attributes is sent.
pub open spec fn second_word_sent(attrs: FileAttrs, request: Seq<u32>) -> bool {
    exists|b: u32| 32 <= b < 64 && #[trigger] sent(attrs, None, request, b)
}

/// Whether attributes are what is sent of a file's attributes to one who asks for `request`: the
/// mask says which attributes have a value, and the values stand in the order of their numbers.
pub open spec fn answers(
    fattr: Fattr4,
    attrs: FileAttrs,
    fh: Option<Seq<u8>>,
    request: Seq<u32>,
) -> bool {
    let mask = fattr.attrmask@;
    &&& mask.len() == if second_word_sent(attrs, request) {
        2int
    } else {
        1int
    }
    &&& word_marks(mask[0], 0, attrs, fh, request)
    &&& mask.len() == 2 ==> word_marks(mask[1], 32, attrs, fh, request)
    &&& fattr.attr_vals@ == values(attrs, fh, request, 0, 64)
}

proof fn values_join(attrs: FileAttrs, fh: Option<Seq<u8>>, request: Seq<u32>, to: u32)
    requires
        32 <= to <= 64,
    ensures
        values(attrs, fh, request, 0, to) == values(attrs, fh, request, 0, 32) + values(
            attrs,
            None,
            request,
            32,
            to,
        ),
    decreases to,
{
    let head = values(attrs, fh, request, 0, 32);
    if to == 32 {
        assert(head + values(attrs, None, request, 32, 32) =~= head);
    } else {
        let bit = (to - 1) as u32;
        values_join(attrs, fh, request, bit);
        assert(attr_value(attrs, fh, bit) == attr_value(attrs, None, bit));
        if sent(attrs, fh, request, bit) {
            add_assoc(
                head,
                values(attrs, None, request, 32, bit),
                attr_value(attrs, fh, bit)->Some_0,
            );
        }
    }
}

/// What is sent of a file's attributes to one who asks for `request`. The handle is sent where one
/// is given.
pub fn encode_fattr4(attrs: &FileAttrs, request: &[u32], fh: Option<&Nfs4FileHandle>) -> (r:
    Nfs4Result<Fattr4>)
    requires
        attrs.mtime.countable(),
    ensures
        if names_wanted_do_not_fit(*attrs, request@) {
            fails_with(r, Nfs4Status::Io)
        } else {
            r is Ok && answers(r->Ok_0, *attrs, handle_bytes(fh), request@)
        },
{
    let mut attr_vals: Vec<u8> = Vec::new();
    let word0: u32 = encode_word0_attrs(attrs, request, fh, &mut attr_vals);
    let ghost head = attr_vals@;
    assert(head =~= values(*attrs, handle_bytes(fh), request@, 0, 32));
    let word1: u32 = match encode_word1_attrs(attrs, request, &mut attr_vals) {
        Ok(word) => word,
        Err(_) => {
            return failure(Nfs4Status::Io);
        },
    };
    let mut attrmask: Vec<u32> = Vec::new();
    attrmask.push(word0);
    if word1 != 0 {
        attrmask.push(word1);
    }
    proof {
        values_join(*attrs, handle_bytes(fh), request@, 64);
        let h = handle_bytes(fh);
        assert forall|i: u32| i < 32 implies (#[trigger] marked(word1, i) <==> sent(
            *attrs,
            h,
            request@,
            (32 + i) as u32,
        )) by {
            let b = (32 + i) as u32;
            assert(attr_value(*attrs, h, b) == attr_value(*attrs, None, b));
        }
    }
    Ok(Fattr4 { attrmask, attr_vals })
}

/// A mask that asks for one attribute.
pub open spec fn only(bit: u32) -> Seq<u32> {
    if bit < 32 {
        seq![1u32 << bit]
    } else {
        seq![0u32, 1u32 << ((bit - 32) as u32)]
    }
}

proof fn one_bit(i: u32, j: u32)
    by (bit_vector)
    requires
        i < 32,
        j < 32,
    ensures
        ((1u32 << i) & (1u32 << j)) != 0 <==> i == j,
        (0u32 & (1u32 << j)) == 0,
{
}

/// The attributes that are said to be there are exactly those that are answered: one who has a
/// handle and asks for an attribute alone gets it where the mask of supported attributes lists it,
/// and nothing where it does not.
pub proof fn law_supported_attributes_are_answered(
    fattr: Fattr4,
    attrs: FileAttrs,
    fh: Seq<u8>,
    bit: u32,
)
    requires
        bit < 64,
        answers(fattr, attrs, Some(fh), only(bit)),
    ensures
        asked_for(seq![SUPPORTED_WORD0, SUPPORTED_WORD1], bit) <==> asked_for(
            fattr.attrmask@,
            bit,
        ),
{
    law_supported_attributes_are_listed(bit);
    let mask = fattr.attrmask@;
    if bit < 32 {
        one_bit(bit, bit);
        assert(marked(mask[0], bit) <==> sent(attrs, Some(fh), only(bit), bit));
    } else {
        let i = (bit - 32) as u32;
        one_bit(i, i);
        assert(attr_value(attrs, Some(fh), bit) == attr_value(attrs, None, bit));
        if sent(attrs, Some(fh), only(bit), bit) {
            assert(sent(attrs, None, only(bit), bit));
            assert(second_word_sent(attrs, only(bit)));
        }
        if mask.len() == 2 {
            assert(marked(mask[1], i) <==> sent(attrs, Some(fh), only(bit), (32 + i) as u32));
        }
    }
}

/// Two masks that ask for the same attributes of a range get the same values of it.
proof fn values_alike(
    attrs: FileAttrs,
    fh: Option<Seq<u8>>,
    request: Seq<u32>,
    other: Seq<u32>,
    from: u32,
    to: u32,
)
    requires
        forall|b: u32| from <= b < to ==> #[trigger] asked_for(request, b) == asked_for(other, b),
    ensures
        values(attrs, fh, request, from, to) == values(attrs, fh, other, from, to),
    decreases to,
{
    if from < to {
        let bit = (to - 1) as u32;
        assert(asked_for(request, bit) == asked_for(other, bit));
        values_alike(attrs, fh, request, other, from, bit);
    }
}

/// A mask that asks for nothing of a range gets nothing of it.
proof fn nothing_asked(attrs: FileAttrs, fh: Option<Seq<u8>>, request: Seq<u32>, from: u32, to: u32)
    requires
        forall|b: u32| from <= b < to ==> !#[trigger] asked_for(request, b),
    ensures
        values(attrs, fh, request, from, to) == Seq::<u8>::empty(),
    decreases to,
{
    if from < to {
        let bit = (to - 1) as u32;
        assert(!asked_for(request, bit));
        nothing_asked(attrs, fh, request, from, bit);
    }
}

/// The values sent for two words of a mask are those for the first, and behind them those for the
/// second.
pub proof fn law_words_are_answered_one_after_the_other(
    both: Fattr4,
    first: Fattr4,
    second: Fattr4,
    attrs: FileAttrs,
    fh: Option<Seq<u8>>,
    word0: u32,
    word1: u32,
)
    requires
        answers(both, attrs, fh, seq![word0, word1]),
        answers(first, attrs, fh, seq![word0]),
        answers(second, attrs, fh, seq![0u32, word1]),
    ensures
        both.attr_vals@ == first.attr_vals@ + second.attr_vals@,
{
    let two = seq![word0, word1];
    let one = seq![word0];
    let other = seq![0u32, word1];
    values_join(attrs, fh, two, 64);
    values_join(attrs, fh, one, 64);
    values_join(attrs, fh, other, 64);
    values_alike(attrs, fh, two, one, 0, 32);
    values_alike(attrs, None, two, other, 32, 64);
    nothing_asked(attrs, None, one, 32, 64);
    assert forall|b: u32| 0 <= b < 32 implies !#[trigger] asked_for(other, b) by {
        one_bit(b, b);
    }
    nothing_asked(attrs, fh, other, 0, 32);
    assert(both.attr_vals@ =~= first.attr_vals@ + second.attr_vals@);
}

// ---------------------------------------------------------------------------
// Attributes that a client has of a file
// ---------------------------------------------------------------------------

/// Whether each attribute that a mask names is one that a file has.
pub open spec fn has_all(attrs: FileAttrs, fh: Option<Seq<u8>>, mask: Seq<u32>) -> bool {
    forall|w: int, i: u32|
        0 <= w < mask.len() && i < 32 && #[trigger] marked(mask[w], i) ==> w < 2 && attr_value(
            attrs,
            fh,
            (32 * w + i) as u32,
        ) is Some
}

/// Whether the attributes that a client has of a file are those of the file: each is one that the
/// file has, with the value that it has there. One who names no attributes has no others.
pub open spec fn agrees(fattr: Fattr4, attrs: FileAttrs, fh: Option<Seq<u8>>) -> bool {
    ||| fattr.attrmask@.len() == 0
    ||| has_all(attrs, fh, fattr.attrmask@) && fattr.attr_vals@ == values(
        attrs,
        fh,
        fattr.attrmask@,
        0,
        64,
    )
}

/// Whether a mask marks all that another marks.
fn marks_all(own: &[u32], mask: &[u32]) -> (r: bool)
    ensures
        r <==> forall|w: int, i: u32|
            0 <= w < mask@.len() && i < 32 && #[trigger] marked(mask@[w], i) ==> w < own@.len()
                && marked(own@[w], i),
{
    let mut n: usize = 0;
    while n < mask.len()
        invariant
            n <= mask@.len(),
            forall|w: int, i: u32|
                0 <= w < n && i < 32 && #[trigger] marked(mask@[w], i) ==> w < own@.len()
                    && marked(own@[w], i),
        decreases mask@.len() - n,
    {
        let word: u32 = mask[n];
        let had: u32 = if n < own.len() {
            own[n]
        } else {
            0
        };
        let mut bit: u32 = 0;
        while bit < 32
            invariant
                n < mask@.len(),
                bit <= 32,
                word == mask@[n as int],
                had == if n < own@.len() {
                    own@[n as int]
                } else {
                    0
                },
                forall|i: u32| i < bit && #[trigger] marked(word, i) ==> marked(had, i),
            decreases 32 - bit,
        {
            if (word & (1u32 << bit)) != 0 && (had & (1u32 << bit)) == 0 {
                assert(marked(mask@[n as int], bit));
                return false;
            }
            bit = bit + 1;
        }
        proof {
            assert forall|i: u32| i < 32 && #[trigger] marked(mask@[n as int], i) implies n
                < own@.len() && marked(own@[n as int], i) by {
                assert(marked(word, i));
                one_bit(i, i);
            }
        }
        n = n + 1;
    }
    true
}

/// Tells whether the attributes that a client has of a file are those of the file.
pub fn compare_fattr4(fattr: &Fattr4, attrs: &FileAttrs, fh: Option<&Nfs4FileHandle>) -> (r:
    Nfs4Result<bool>)
    requires
        attrs.mtime.countable(),
    ensures
        if names_wanted_do_not_fit(*attrs, fattr.attrmask@) {
            fails_with(r, Nfs4Status::Io)
        } else {
            r is Ok && r->Ok_0 == agrees(*fattr, *attrs, handle_bytes(fh))
        },
{
    let mask = fattr.attrmask.as_slice();
    let own = match encode_fattr4(attrs, mask, fh) {
        Ok(own) => own,
        Err(e) => {
            return Err(e);
        },
    };
    if mask.len() == 0 {
        return Ok(true);
    }
    let ghost h = handle_bytes(fh);
    let all = marks_all(own.attrmask.as_slice(), mask);
    proof {
        let o = own.attrmask@;
        assert forall|w: int, i: u32|
            0 <= w < mask@.len() && i < 32 && #[trigger] marked(mask@[w], i) implies ((w < o.len()
            && marked(o[w], i)) <==> (w < 2 && attr_value(*attrs, h, (32 * w + i) as u32)
            is Some)) by {
            let bit = (32 * w + i) as u32;
            if w < 2 {
                assert(bit / 32 == w && bit % 32 == i);
                assert(asked_for(mask@, bit));
                if w == 1 && sent(*attrs, h, mask@, bit) {
                    assert(attr_value(*attrs, h, bit) == attr_value(*attrs, None, bit));
                    assert(sent(*attrs, None, mask@, bit));
                    assert(second_word_sent(*attrs, mask@));
                }
            }
        }
        assert(all == has_all(*attrs, h, mask@));
    }
    if !all {
        return Ok(false);
    }
    Ok(bytes_eq(fattr.attr_vals.as_slice(), own.attr_vals.as_slice()))
}

// ---------------------------------------------------------------------------
// Attributes that a client wants set
// ---------------------------------------------------------------------------

/// A time that a client wants set: its own, or, where there is none, that of the server.
#[derive(Clone, Copy, Debug)]
pub struct SetTime {
    pub time: Option<Nfstime4>,
}

impl Decode for SetTime {
    open spec fn decoded_len(s: Seq<u8>) -> Result<nat, XdrError> {
        match crate::bytes::need(s, 4) {
            Err(e) => Err(e),
            Ok(n) => if crate::bytes::be32_at(s) == 1 {
                crate::xdr::after::<Nfstime4>(Ok(n), s)
            } else {
                Ok(n)
            },
        }
    }

    open spec fn decodes_to(&self, s: Seq<u8>) -> bool {
        if crate::bytes::be32_at(s) == 1 {
            self.time is Some && self.time->Some_0.decodes_to(s.skip(4))
        } else {
            self.time is None
        }
    }

    fn decode(src: &mut Reader<'_>) -> (r: Result<Self, XdrError>) {
        broadcast use crate::bytes::skip_skip;

        let how: u32 = src.read_u32()?;
        if how == 1 {
            let time = Nfstime4::decode(src)?;
            Ok(SetTime { time: Some(time) })
        } else {
            Ok(SetTime { time: None })
        }
    }
}

/// The attributes that a client wants set.
#[derive(Clone, Copy, Debug)]
pub struct SetAttrs {
    pub mode: Option<u32>,
    pub uid: Option<u32>,
    pub gid: Option<u32>,
    pub size: Option<u64>,
    pub atime: Option<Nfstime4>,
    pub mtime: Option<Nfstime4>,
}

impl SetAttrs {
    /// Nothing is to be set.
    pub open spec fn nothing() -> Self {
        SetAttrs { mode: None, uid: None, gid: None, size: None, atime: None, mtime: None }
    }

    /// Nothing is to be set.
    pub fn none() -> (r: Self)
        ensures
            r == Self::nothing(),
    {
        SetAttrs { mode: None, uid: None, gid: None, size: None, atime: None, mtime: None }
    }

    /// Whether anything is to be set.
    pub open spec fn sets_something(self) -> bool {
        self != Self::nothing()
    }

    /// Whether anything is to be set.
    pub fn any(&self) -> (r: bool)
        ensures
            r == self.sets_something(),
    {
        self.mode.is_some() || self.uid.is_some() || self.gid.is_some() || self.size.is_some()
            || self.atime.is_some() || self.mtime.is_some()
    }
}

/// The number of the attribute that sets the time of the last reading.
pub const FATTR4_TIME_ACCESS_SET: u32 = 48;

/// The number of the attribute that sets the time of the last change.
pub const FATTR4_TIME_MODIFY_SET: u32 = 54;

/// The bytes that a `T` takes, where one is there.
#[verifier::opaque]
pub open spec fn maybe_len<T: Decode>(there: bool, s: Seq<u8>) -> Result<nat, XdrError> {
    if there {
        T::decoded_len(s)
    } else {
        Ok(0)
    }
}

/// The bytes up to the end of a `T`, where one is there, behind what `prev` counts.
pub open spec fn maybe<T: Decode>(there: bool, prev: Result<nat, XdrError>, s: Seq<u8>) -> Result<
    nat,
    XdrError,
> {
    match prev {
        Err(e) => Err(e),
        Ok(n) => match maybe_len::<T>(there, s.skip(n as int)) {
            Err(e) => Err(e),
            Ok(m) => Ok(n + m),
        },
    }
}

/// Reads a `T`, where one is there.
fn read_maybe<T: Decode>(src: &mut Reader<'_>, there: bool) -> (r: Result<Option<T>, XdrError>)
    ensures
        match maybe_len::<T>(there, old(src)@) {
            Ok(n) => {
                &&& r is Ok
                &&& n <= old(src)@.len()
                &&& final(src)@ == old(src)@.skip(n as int)
                &&& r->Ok_0 is Some <==> there
                &&& there ==> r->Ok_0->Some_0.decodes_to(old(src)@)
            },
            Err(e) => r is Err && r->Err_0 == e,
        },
{
    broadcast use crate::bytes::skip_nothing;

    reveal(maybe_len);
    if there {
        match T::decode(src) {
            Ok(v) => Ok(Some(v)),
            Err(e) => Err(e),
        }
    } else {
        Ok(None)
    }
}

/// Which of the attributes that can be set a mask asks for.
#[derive(Clone, Copy)]
pub struct Wanted {
    pub size: bool,
    pub mode: bool,
    pub owner: bool,
    pub group: bool,
    pub atime: bool,
    pub mtime: bool,
}

impl Wanted {
    /// What a mask asks for.
    pub open spec fn asked(mask: Seq<u32>) -> Self {
        Wanted {
            size: asked_for(mask, FATTR4_SIZE),
            mode: asked_for(mask, FATTR4_MODE),
            owner: asked_for(mask, FATTR4_OWNER),
            group: asked_for(mask, FATTR4_OWNER_GROUP),
            atime: asked_for(mask, FATTR4_TIME_ACCESS_SET),
            mtime: asked_for(mask, FATTR4_TIME_MODIFY_SET),
        }
    }

    fn of_mask(mask: &[u32]) -> (r: Self)
        ensures
            r == Self::asked(mask@),
    {
        Wanted {
            size: is_asked_for(mask, FATTR4_SIZE),
            mode: is_asked_for(mask, FATTR4_MODE),
            owner: is_asked_for(mask, FATTR4_OWNER),
            group: is_asked_for(mask, FATTR4_OWNER_GROUP),
            atime: is_asked_for(mask, FATTR4_TIME_ACCESS_SET),
            mtime: is_asked_for(mask, FATTR4_TIME_MODIFY_SET),
        }
    }
}

/// Whether `r` is what the values of attributes say. They stand in the order of their numbers: the
/// length, the mode, the names of the owner and the group, which count where they are numbers, and
/// the two times.
pub open spec fn parses(w: Wanted, s: Seq<u8>, r: Result<SetAttrs, XdrError>) -> bool {
    let n1 = maybe::<u64>(w.size, Ok(0), s);
    let n2 = maybe::<u32>(w.mode, n1, s);
    let n3 = maybe::<Vec<u8>>(w.owner, n2, s);
    let n4 = maybe::<Vec<u8>>(w.group, n3, s);
    let n5 = maybe::<SetTime>(w.atime, n4, s);
    let n6 = maybe::<SetTime>(w.mtime, n5, s);
    match n6 {
        Err(e) => r == Err::<SetAttrs, XdrError>(e),
        Ok(_) => {
            &&& r is Ok
            &&& r->Ok_0.size == if w.size {
                Some(crate::bytes::be64_at(s))
            } else {
                None
            }
            &&& r->Ok_0.mode == if w.mode {
                Some(crate::bytes::be32_at(crate::xdr::rest(n1, s)))
            } else {
                None
            }
            &&& r->Ok_0.uid == if w.owner {
                number_in(crate::xdr::opaque_at(crate::xdr::rest(n2, s)))
            } else {
                None
            }
            &&& r->Ok_0.gid == if w.group {
                number_in(crate::xdr::opaque_at(crate::xdr::rest(n3, s)))
            } else {
                None
            }
            &&& if w.atime {
                SetTime { time: r->Ok_0.atime }.decodes_to(crate::xdr::rest(n4, s))
            } else {
                r->Ok_0.atime is None
            }
            &&& if w.mtime {
                SetTime { time: r->Ok_0.mtime }.decodes_to(crate::xdr::rest(n5, s))
            } else {
                r->Ok_0.mtime is None
            }
        },
    }
}

/// Whether `r` is what is read of the attributes that a client wants set. Where there is no mask or
/// there are no values, nothing is to be set.
pub open spec fn parsed(fattr: Fattr4, r: Result<SetAttrs, XdrError>) -> bool {
    if fattr.attrmask@.len() == 0 || fattr.attr_vals@.len() == 0 {
        r == Ok::<SetAttrs, XdrError>(SetAttrs::nothing())
    } else {
        parses(Wanted::asked(fattr.attrmask@), fattr.attr_vals@, r)
    }
}

/// Reads the attributes that a client wants set.
pub fn parse_setattr_attrs(fattr: &Fattr4) -> (r: Result<SetAttrs, XdrError>)
    ensures
        parsed(*fattr, r),
{
    if fattr.attrmask.len() == 0 || fattr.attr_vals.len() == 0 {
        return Ok(SetAttrs::none());
    }
    let mut src = Reader::new(fattr.attr_vals.as_slice());
    parse_values(Wanted::of_mask(fattr.attrmask.as_slice()), &mut src)
}

/// Reads the attributes that a client wants set when it makes a file.
pub fn parse_create_attrs(fattr: &Fattr4) -> (r: Result<SetAttrs, XdrError>)
    ensures
        parsed(*fattr, r),
{
    parse_setattr_attrs(fattr)
}

fn parse_values(w: Wanted, src: &mut Reader<'_>) -> (r: Result<SetAttrs, XdrError>)
    ensures
        parses(w, old(src)@, r),
{
    let ghost s = src@;
    let ghost n0 = Ok::<nat, XdrError>(0);
    assert(s.skip(0) =~= s);
    let ghost n1 = maybe::<u64>(w.size, n0, s);
    let size = read_maybe::<u64>(src, w.size)?;
    assert(src@ =~= s.skip(n1->Ok_0 as int));
    let ghost n2 = maybe::<u32>(w.mode, n1, s);
    let mode = read_maybe::<u32>(src, w.mode)?;
    assert(src@ =~= s.skip(n2->Ok_0 as int));
    let ghost n3 = maybe::<Vec<u8>>(w.owner, n2, s);
    let owner = read_maybe::<Vec<u8>>(src, w.owner)?;
    assert(src@ =~= s.skip(n3->Ok_0 as int));
    let ghost n4 = maybe::<Vec<u8>>(w.group, n3, s);
    let group = read_maybe::<Vec<u8>>(src, w.group)?;
    assert(src@ =~= s.skip(n4->Ok_0 as int));
    let ghost n5 = maybe::<SetTime>(w.atime, n4, s);
    let atime = read_maybe::<SetTime>(src, w.atime)?;
    assert(src@ =~= s.skip(n5->Ok_0 as int));
    let ghost n6 = maybe::<SetTime>(w.mtime, n5, s);
    let mtime = read_maybe::<SetTime>(src, w.mtime)?;
    Ok(
        SetAttrs {
            mode,
            uid: number_of(owner),
            gid: number_of(group),
            size,
            atime: time_of(atime),
            mtime: time_of(mtime),
        },
    )
}

/// The number that a name stands for, if there is a name and it stands for one.
fn number_of(name: Option<Vec<u8>>) -> (r: Option<u32>)
    ensures
        r == match name {
            Some(n) => number_in(n@),
            None => None,
        },
{
    match name {
        Some(n) => parse_number(n.as_slice()),
        None => None,
    }
}

/// The time that is wanted, if one is.
fn time_of(how: Option<SetTime>) -> (r: Option<Nfstime4>)
    ensures
        r == match how {
            Some(h) => h.time,
            None => None,
        },
{
    match how {
        Some(h) => h.time,
        None => None,
    }
}

} // verus!
