//! What a client is told of a file, and what it sets of it.

use crate::args::SetattrArgs;
use crate::attrs::{
    agrees, answers, asked_for, attr_value, marked, only, owner_bytes, parsed, second_word_sent,
    sent, values,
};
use crate::bytes::{
    be32, be32_at, be32_round_trip, be64, be64_at, be64_round_trip, key12, opaque, skip_prefix,
};
use crate::compound::{CompoundContext, CompoundHandler, Nfs4Op};
use crate::error::{Nfs4Result, Nfs4Status};
use crate::fs::handle_of;
use crate::laws_data::target_found;
use crate::laws_names::{failed, goes_on, went_well};
use crate::laws_opens::has_bit;
use crate::ops::{has_read, OpStep, OpTask};
use crate::storage::{FsAnswer, FsCall};
use crate::text::text_bytes;
use crate::types::{Fattr4, FileAttrs, FileStatus, Fileid4, Nfs4FileType, Stateid4};
use crate::xdr::{Decode, XDR};
use vstd::prelude::*;

verus! {

// ---------------------------------------------------------------------------
// One attribute
// ---------------------------------------------------------------------------

proof fn bits_differ(i: u32, j: u32)
    by (bit_vector)
    requires
        i < 32,
        j < 32,
    ensures
        ((1u32 << i) & (1u32 << j)) != 0 <==> i == j,
        (0u32 & (1u32 << j)) == 0,
        1u32 << i != 0,
{
}

proof fn only_is_asked_for(bit: u32, b: u32)
    requires
        bit < 64,
        b < 64,
    ensures
        asked_for(only(bit), b) <==> b == bit,
{
    bits_differ((bit % 32) as u32, (b % 32) as u32);
}

/// Only what is asked for is told.
proof fn one_value(attrs: FileAttrs, fh: Option<Seq<u8>>, bit: u32, to: u32)
    requires
        bit < 64,
        to <= 64,
        attr_value(attrs, fh, bit) is Some,
    ensures
        values(attrs, fh, only(bit), 0, to) == if bit < to {
            attr_value(attrs, fh, bit)->Some_0
        } else {
            Seq::empty()
        },
    decreases to,
{
    if to > 0 {
        let last = (to - 1) as u32;
        one_value(attrs, fh, bit, last);
        only_is_asked_for(bit, last);
        let before = values(attrs, fh, only(bit), 0, last);
        assert(Seq::<u8>::empty() + attr_value(attrs, fh, bit)->Some_0 =~= attr_value(
            attrs,
            fh,
            bit,
        )->Some_0);
    }
}

/// A mask that marks one bit only is that bit.
proof fn one_mark(word: u32, i: u32)
    requires
        i < 32,
        forall|j: u32| j < 32 ==> (#[trigger] marked(word, j) <==> j == i),
    ensures
        word == 1u32 << i,
{
    assert(word == 1u32 << i) by {
        assert(marked(word, 0) == (i == 0) && marked(word, 1) == (i == 1) && marked(word, 2) == (i
            == 2) && marked(word, 3) == (i == 3) && marked(word, 4) == (i == 4) && marked(word, 5)
            == (i == 5) && marked(word, 6) == (i == 6) && marked(word, 7) == (i == 7) && marked(
            word,
            8,
        ) == (i == 8) && marked(word, 9) == (i == 9) && marked(word, 10) == (i == 10) && marked(
            word,
            11,
        ) == (i == 11) && marked(word, 12) == (i == 12) && marked(word, 13) == (i == 13)
            && marked(word, 14) == (i == 14) && marked(word, 15) == (i == 15) && marked(word, 16)
            == (i == 16) && marked(word, 17) == (i == 17) && marked(word, 18) == (i == 18)
            && marked(word, 19) == (i == 19) && marked(word, 20) == (i == 20) && marked(word, 21)
            == (i == 21) && marked(word, 22) == (i == 22) && marked(word, 23) == (i == 23)
            && marked(word, 24) == (i == 24) && marked(word, 25) == (i == 25) && marked(word, 26)
            == (i == 26) && marked(word, 27) == (i == 27) && marked(word, 28) == (i == 28)
            && marked(word, 29) == (i == 29) && marked(word, 30) == (i == 30) && marked(word, 31)
            == (i == 31));
        all_marks(word, i);
    }
}

proof fn all_marks(w: u32, i: u32)
    by (bit_vector)
    requires
        i < 32,
        ((w & (1u32 << 0u32)) != 0) == (i == 0),
        ((w & (1u32 << 1u32)) != 0) == (i == 1),
        ((w & (1u32 << 2u32)) != 0) == (i == 2),
        ((w & (1u32 << 3u32)) != 0) == (i == 3),
        ((w & (1u32 << 4u32)) != 0) == (i == 4),
        ((w & (1u32 << 5u32)) != 0) == (i == 5),
        ((w & (1u32 << 6u32)) != 0) == (i == 6),
        ((w & (1u32 << 7u32)) != 0) == (i == 7),
        ((w & (1u32 << 8u32)) != 0) == (i == 8),
        ((w & (1u32 << 9u32)) != 0) == (i == 9),
        ((w & (1u32 << 10u32)) != 0) == (i == 10),
        ((w & (1u32 << 11u32)) != 0) == (i == 11),
        ((w & (1u32 << 12u32)) != 0) == (i == 12),
        ((w & (1u32 << 13u32)) != 0) == (i == 13),
        ((w & (1u32 << 14u32)) != 0) == (i == 14),
        ((w & (1u32 << 15u32)) != 0) == (i == 15),
        ((w & (1u32 << 16u32)) != 0) == (i == 16),
        ((w & (1u32 << 17u32)) != 0) == (i == 17),
        ((w & (1u32 << 18u32)) != 0) == (i == 18),
        ((w & (1u32 << 19u32)) != 0) == (i == 19),
        ((w & (1u32 << 20u32)) != 0) == (i == 20),
        ((w & (1u32 << 21u32)) != 0) == (i == 21),
        ((w & (1u32 << 22u32)) != 0) == (i == 22),
        ((w & (1u32 << 23u32)) != 0) == (i == 23),
        ((w & (1u32 << 24u32)) != 0) == (i == 24),
        ((w & (1u32 << 25u32)) != 0) == (i == 25),
        ((w & (1u32 << 26u32)) != 0) == (i == 26),
        ((w & (1u32 << 27u32)) != 0) == (i == 27),
        ((w & (1u32 << 28u32)) != 0) == (i == 28),
        ((w & (1u32 << 29u32)) != 0) == (i == 29),
        ((w & (1u32 << 30u32)) != 0) == (i == 30),
        ((w & (1u32 << 31u32)) != 0) == (i == 31),
    ensures
        w == 1u32 << i,
{
}

/// What is told where one attribute is asked for that there is: the mask has its bit, and the value
/// follows.
proof fn one_attribute(fattr: Fattr4, attrs: FileAttrs, fh: Option<Seq<u8>>, bit: u32)
    requires
        bit < 64,
        attr_value(attrs, fh, bit) is Some,
        answers(fattr, attrs, fh, only(bit)),
    ensures
        fattr.attr_vals@ == attr_value(attrs, fh, bit)->Some_0,
        fattr.attrmask@ == only(bit),
{
    one_value(attrs, fh, bit, 64);
    let mask = fattr.attrmask@;
    assert forall|b: u32| b < 64 implies (#[trigger] asked_for(only(bit), b) <==> b == bit) by {
        only_is_asked_for(bit, b);
    }
    if bit < 32 {
        assert forall|i: u32| i < 32 implies (#[trigger] marked(mask[0], i) <==> i == bit) by {
            assert(asked_for(only(bit), i) <==> i == bit);
            assert((0 + i) as u32 == i);
        }
        one_mark(mask[0], bit);
        if second_word_sent(attrs, only(bit)) {
            let b = choose|b: u32|
                32 <= b < 64 && #[trigger] sent(attrs, None, only(bit), b);
            assert(asked_for(only(bit), b));
        }
        assert(mask =~= only(bit));
    } else {
        assert(attr_value(attrs, None, bit) is Some);
        assert(sent(attrs, None, only(bit), bit));
        assert(second_word_sent(attrs, only(bit)));
        let i0 = (bit - 32) as u32;
        assert forall|i: u32| i < 32 implies (#[trigger] marked(mask[1], i) <==> i == i0) by {
            let b = (32 + i) as u32;
            assert(asked_for(only(bit), b) <==> b == bit);
        }
        one_mark(mask[1], i0);
        assert forall|i: u32| i < 32 implies !(#[trigger] marked(mask[0], i)) by {
            assert((0 + i) as u32 == i);
            assert(asked_for(only(bit), i) <==> i == bit);
        }
        no_mark(mask[0]);
        assert(mask =~= only(bit));
    }
}

proof fn no_mark(word: u32)
    requires
        forall|j: u32| j < 32 ==> !#[trigger] marked(word, j),
    ensures
        word == 0,
{
    if word != 0 {
        lowest(word);
        let i = choose|i: u32| i < 32 && (word & (1u32 << i)) != 0;
        assert(marked(word, i));
    }
}

proof fn lowest(w: u32)
    requires
        w != 0,
    ensures
        exists|i: u32| i < 32 && (w & (1u32 << i)) != 0,
{
    assert((w & (1u32 << 0u32)) != 0 || (w & (1u32 << 1u32)) != 0 || (w & (1u32 << 2u32)) != 0 || (w
        & (1u32 << 3u32)) != 0 || (w & (1u32 << 4u32)) != 0 || (w & (1u32 << 5u32)) != 0 || (w & (
    1u32 << 6u32)) != 0 || (w & (1u32 << 7u32)) != 0 || (w & (1u32 << 8u32)) != 0 || (w & (1u32
        << 9u32)) != 0 || (w & (1u32 << 10u32)) != 0 || (w & (1u32 << 11u32)) != 0 || (w & (1u32
        << 12u32)) != 0 || (w & (1u32 << 13u32)) != 0 || (w & (1u32 << 14u32)) != 0 || (w & (1u32
        << 15u32)) != 0 || (w & (1u32 << 16u32)) != 0 || (w & (1u32 << 17u32)) != 0 || (w & (1u32
        << 18u32)) != 0 || (w & (1u32 << 19u32)) != 0 || (w & (1u32 << 20u32)) != 0 || (w & (1u32
        << 21u32)) != 0 || (w & (1u32 << 22u32)) != 0 || (w & (1u32 << 23u32)) != 0 || (w & (1u32
        << 24u32)) != 0 || (w & (1u32 << 25u32)) != 0 || (w & (1u32 << 26u32)) != 0 || (w & (1u32
        << 27u32)) != 0 || (w & (1u32 << 28u32)) != 0 || (w & (1u32 << 29u32)) != 0 || (w & (1u32
        << 30u32)) != 0 || (w & (1u32 << 31u32)) != 0) by (bit_vector)
        requires
            w != 0,
    ;
}

/// The value of each attribute that depends on the file: its kind (1), the number that changes with
/// it (3), its length (4), its handle (19), its number (20 and 55), its mode (33), its links (35),
/// its owner (36) and group (37), the space it takes (45), and when it was read (47) and changed (52
/// and 53). A file whose owner is not known is nobody's.
#[verifier::rlimit(60)]
pub proof fn law_attribute_is_that_of_the_file(
    fattr: Fattr4,
    attrs: FileAttrs,
    status: FileStatus,
    fh: Seq<u8>,
    bit: u32,
)
    requires
        attrs.is_of(status),
        0 <= status.mtime,
        0 <= status.len,
        0 <= status.id,
        bit < 64,
        answers(fattr, attrs, Some(fh), only(bit)),
    ensures
        ({
            let v = fattr.attr_vals@;
            &&& bit == 1 ==> v.len() == 4 && be32_at(v) == Nfs4FileType::of_type(
                status.file_type,
            ).code_of()
            &&& bit == 3 ==> v.len() == 8 && be64_at(v) == status.mtime
            &&& bit == 4 ==> v.len() == 8 && be64_at(v) == status.len
            &&& bit == 19 ==> v == opaque(fh)
            &&& bit == 20 || bit == 55 ==> v.len() == 8 && be64_at(v) == status.id
            &&& bit == 33 ==> v.len() == 4 && be32_at(v) == status.mode
            &&& bit == 35 ==> v.len() == 4 && be32_at(v) == status.nlink
            &&& bit == 36 && text_bytes(status.owner@).len() > 0 ==> v == opaque(
                text_bytes(status.owner@),
            )
            &&& bit == 37 && text_bytes(status.group@).len() > 0 ==> v == opaque(
                text_bytes(status.group@),
            )
            &&& bit == 36 && text_bytes(status.owner@).len() == 0 ==> v == opaque(
                seq![110u8, 111u8, 98u8, 111u8, 100u8, 121u8],
            )
            &&& bit == 45 ==> v.len() == 8 && be64_at(v) == attrs.used
            &&& bit == 47 ==> v == attrs.atime.encoding()
            &&& bit == 52 || bit == 53 ==> v == attrs.mtime.encoding()
            &&& bit == 10 ==> v.len() == 4 && be32_at(v) == 90
            &&& bit == 30 || bit == 31 ==> v.len() == 8 && be64_at(v) == 0x10_0000
            &&& bit == 29 ==> v.len() == 4 && be32_at(v) == 255
        }),
{
    if attr_value(attrs, Some(fh), bit) is Some {
        one_attribute(fattr, attrs, Some(fh), bit);
    }
    let v = fattr.attr_vals@;
    assert(v + Seq::<u8>::empty() =~= v);
    if bit == 1 {
        be32_round_trip(attrs.file_type.code_of(), Seq::empty());
    } else if bit == 3 {
        crate::types::law_millis_survive(status.mtime);
        be64_round_trip(attrs.mtime.millis() as u64, Seq::empty());
    } else if bit == 4 {
        be64_round_trip(attrs.size, Seq::empty());
    } else if bit == 20 || bit == 55 {
        be64_round_trip(attrs.fileid, Seq::empty());
    } else if bit == 33 {
        be32_round_trip(attrs.mode, Seq::empty());
    } else if bit == 35 {
        be32_round_trip(attrs.nlink, Seq::empty());
    } else if bit == 45 {
        be64_round_trip(attrs.used, Seq::empty());
    } else if bit == 10 {
        be32_round_trip(90, Seq::empty());
    } else if bit == 30 || bit == 31 {
        be64_round_trip(0x10_0000, Seq::empty());
    } else if bit == 29 {
        be32_round_trip(255, Seq::empty());
    }
}

/// A client that asks for nothing is told that nothing follows; one that asks is told of the file of
/// the current handle.
pub proof fn law_getattr_is_of_the_current_file(
    h: CompoundHandler,
    after: CompoundHandler,
    s: Seq<u8>,
    left: Seq<u8>,
    ctx: CompoundContext,
    ctx2: CompoundContext,
    first: OpStep,
    fileid: Fileid4,
    status: FileStatus,
    second: OpStep,
)
    requires
        after.has_executed(&h, Nfs4Op::Getattr, s, left, ctx, ctx2, first),
        crate::args::List::<u32>::decoded_len(s) is Ok,
        ctx.current_fh is Some,
        ctx.current_fh->Some_0@ == handle_of(h.fs.config.cluster_generation, fileid),
    ensures
        after == h,
        ctx2 == ctx,
        if be32_at(s) == 0 {
            went_well(first) && first->result->Ok_0@ == Seq::new(8, |i: int| 0u8)
        } else {
            &&& first is Call
            &&& first->call == (FsCall::Status { fileid })
            &&& first->task is Getattr
            &&& first->task->Getattr_fileid == fileid
            &&& goes_on(first->task, FsAnswer::Status(status), second) ==> {
                &&& second is Call
                &&& second->call == (FsCall::WriterPos { fileid })
                &&& second->task is GetattrPos
                &&& second->task->GetattrPos_status == status
            }
        },
{
    reveal(CompoundHandler::has_run);
    reveal(CompoundHandler::has_resumed);
    assert(h.has_room(Nfs4Op::Getattr));
    target_found(h, ctx, fileid);
    assert(be32(0) + be32(0) =~= Seq::new(8, |i: int| 0u8));
}

/// A file that is being written is told as long as it was written.
pub proof fn law_file_being_written_is_as_long_as_was_written(
    attrs: FileAttrs,
    status: FileStatus,
    pos: i64,
)
    requires
        crate::op_file::attrs_at(attrs, status, Some(pos)),
        0 <= pos <= 0x7fff_ffff_ffff_fe00,
    ensures
        attrs.size == pos,
        pos <= attrs.used < pos + 512,
        attrs.mode == status.mode,
        attrs.owner == status.owner,
{
}

// ---------------------------------------------------------------------------
// Several attributes
// ---------------------------------------------------------------------------

proof fn two_values(
    attrs: FileAttrs,
    fh: Option<Seq<u8>>,
    request: Seq<u32>,
    a: u32,
    b: u32,
    to: u32,
)
    requires
        a < b < 64,
        to <= 64,
        forall|i: u32| i < 64 ==> (#[trigger] asked_for(request, i) <==> i == a || i == b),
        attr_value(attrs, fh, a) is Some,
        attr_value(attrs, fh, b) is Some,
    ensures
        values(attrs, fh, request, 0, to) == if to <= a {
            Seq::empty()
        } else if to <= b {
            attr_value(attrs, fh, a)->Some_0
        } else {
            attr_value(attrs, fh, a)->Some_0 + attr_value(attrs, fh, b)->Some_0
        },
    decreases to,
{
    if to > 0 {
        let last = (to - 1) as u32;
        two_values(attrs, fh, request, a, b, last);
        assert(asked_for(request, last) <==> last == a || last == b);
        assert(Seq::<u8>::empty() + attr_value(attrs, fh, a)->Some_0 =~= attr_value(
            attrs,
            fh,
            a,
        )->Some_0);
    }
}

/// Two attributes that are asked for together are told one behind the other, the one with the lower
/// number first, each as it is told alone.
pub proof fn law_attributes_are_told_in_order(
    both: Fattr4,
    first: Fattr4,
    second: Fattr4,
    attrs: FileAttrs,
    fh: Seq<u8>,
    request: Seq<u32>,
    a: u32,
    b: u32,
)
    requires
        a < b < 64,
        forall|i: u32| i < 64 ==> (#[trigger] asked_for(request, i) <==> i == a || i == b),
        attr_value(attrs, Some(fh), a) is Some,
        attr_value(attrs, Some(fh), b) is Some,
        answers(both, attrs, Some(fh), request),
        answers(first, attrs, Some(fh), only(a)),
        answers(second, attrs, Some(fh), only(b)),
    ensures
        both.attr_vals@ == first.attr_vals@ + second.attr_vals@,
{
    one_attribute(first, attrs, Some(fh), a);
    one_attribute(second, attrs, Some(fh), b);
    two_values(attrs, Some(fh), request, a, b, 64);
}

// ---------------------------------------------------------------------------
// Comparing
// ---------------------------------------------------------------------------

/// What a client has been told of a file agrees with the file for as long as the file is told the
/// same.
pub proof fn law_what_was_told_agrees(fattr: Fattr4, attrs: FileAttrs, fh: Seq<u8>, bit: u32)
    requires
        bit < 64,
        attr_value(attrs, Some(fh), bit) is Some,
        answers(fattr, attrs, Some(fh), only(bit)),
    ensures
        agrees(fattr, attrs, Some(fh)),
{
    one_attribute(fattr, attrs, Some(fh), bit);
    let mask = fattr.attrmask@;
    assert forall|w: int, i: u32|
        0 <= w < mask.len() && i < 32 && #[trigger] marked(mask[w], i) implies w < 2 && attr_value(
        attrs,
        Some(fh),
        (32 * w + i) as u32,
    ) is Some by {
        bits_differ((bit % 32) as u32, i);
        bits_differ(0, i);
    }
}

/// A client that wants its attributes to be those of the file goes on exactly where one that wants
/// them to differ does not: one of the two goes on, and the other one is told that they are the
/// same, or that they are not.
pub proof fn law_same_and_differing_exclude_each_other(
    fattr: Fattr4,
    status: FileStatus,
    ctx: CompoundContext,
    same: OpStep,
    differ: OpStep,
)
    requires
        CompoundHandler::compare_done_step(
            ctx,
            fattr,
            false,
            Ok(FsAnswer::Status(status)),
            same,
        ),
        CompoundHandler::compare_done_step(
            ctx,
            fattr,
            true,
            Ok(FsAnswer::Status(status)),
            differ,
        ),
        owner_bytes(status.owner@).len() < u32::MAX,
        owner_bytes(status.group@).len() < u32::MAX,
    ensures
        went_well(same) <==> failed(differ, Nfs4Status::Same),
        went_well(differ) <==> failed(same, Nfs4Status::NotSame),
        went_well(same) || went_well(differ),
        !(went_well(same) && went_well(differ)),
{
}

/// Whether attributes are to be the same or to differ goes by the operation.
pub proof fn law_verify_wants_the_same(
    h: CompoundHandler,
    after: CompoundHandler,
    op: Nfs4Op,
    fattr: Fattr4,
    t: Seq<u8>,
    left: Seq<u8>,
    ctx: CompoundContext,
    ctx2: CompoundContext,
    step: OpStep,
    fileid: Fileid4,
)
    requires
        op == Nfs4Op::Verify || op == Nfs4Op::Nverify,
        fattr.encodable(),
        fattr.readable(),
        after.has_executed(&h, op, fattr.encoding() + t, left, ctx, ctx2, step),
        ctx.current_fh is Some,
        ctx.current_fh->Some_0@ == handle_of(h.fs.config.cluster_generation, fileid),
    ensures
        left == t,
        after == h,
        ctx2 == ctx,
        step is Call,
        step->call == (FsCall::Status { fileid }),
        step->task is Compare,
        step->task->differ <==> op == Nfs4Op::Nverify,
        step->task->fattr.attrmask@ == fattr.attrmask@,
        step->task->fattr.attr_vals@ == fattr.attr_vals@,
{
    reveal(CompoundHandler::has_run);
    assert(h.has_room(op));
    target_found(h, ctx, fileid);
    fattr.round_trip(t);
    skip_prefix(fattr.encoding(), t);
    let s = fattr.encoding() + t;
    let differ = op == Nfs4Op::Nverify;
    let got = choose|got: Nfs4Result<Fattr4>|
        {
            &&& #[trigger] has_read::<Fattr4>(s, left, got)
            &&& match got {
                Err(e) => after.has_refused(&h, ctx, ctx2, step, e),
                Ok(args) => {
                    &&& after == h
                    &&& ctx2 == ctx
                    &&& h.compare_step(ctx, args, differ, step)
                },
            }
        };
    let g = got->Ok_0;
    assert(g.attrmask@ =~= fattr.attrmask@);
}

// ---------------------------------------------------------------------------
// Setting
// ---------------------------------------------------------------------------

/// The attributes that a client sets are set for the file of the current handle, as they stand in
/// the request. Its length is only set by one that names no state, or one under which the file is
/// open for writing.
pub proof fn law_setattr_sets_what_was_given(
    h: CompoundHandler,
    after: CompoundHandler,
    sid: Stateid4,
    fattr: Fattr4,
    t: Seq<u8>,
    left: Seq<u8>,
    ctx: CompoundContext,
    ctx2: CompoundContext,
    step: OpStep,
    fileid: Fileid4,
)
    requires
        fattr.encodable(),
        fattr.readable(),
        after.has_executed(
            &h,
            Nfs4Op::Setattr,
            sid.encoding() + (fattr.encoding() + t),
            left,
            ctx,
            ctx2,
            step,
        ),
        ctx.current_fh is Some,
        ctx.current_fh->Some_0@ == handle_of(h.fs.config.cluster_generation, fileid),
    ensures
        left == t,
        after == h,
        ctx2 == ctx,
        ({
            let k = key12(sid.other@);
            let open = h.opens.states@[k];
            if has_bit(fattr.attrmask@, 0, 0x10) && !sid.special()
                && !h.opens.states@.contains_key(k) {
                failed(step, Nfs4Status::BadStateid)
            } else if has_bit(fattr.attrmask@, 0, 0x10) && !sid.special() && sid.seqid == open.seqid
                && open.share_access & 2 == 0 {
                failed(step, Nfs4Status::Openmode)
            } else {
                &&& step is Call ==> {
                    &&& step->call is Setattr
                    &&& step->call->Setattr_fileid == fileid
                    &&& parsed(fattr, Ok(step->call->set))
                    &&& step->task is Setattr
                    &&& step->task->Setattr_mask@ == fattr.attrmask@
                }
                &&& (!has_bit(fattr.attrmask@, 0, 0x10) || sid.special() || sid.seqid == open.seqid)
                    ==> step is Call || failed(step, Nfs4Status::Io)
            }
        }),
{
    reveal(CompoundHandler::has_run);
    assert(h.has_room(Nfs4Op::Setattr));
    target_found(h, ctx, fileid);
    let s = sid.encoding() + (fattr.encoding() + t);
    sid.round_trip(fattr.encoding() + t);
    fattr.round_trip(t);
    skip_prefix(sid.encoding(), fattr.encoding() + t);
    skip_prefix(fattr.encoding(), t);
    assert(s.skip((sid.encoding().len() + fattr.encoding().len()) as int) =~= t);
    assert((1u32 << 4u32) == 16) by (bit_vector);
    let got = choose|got: Nfs4Result<SetattrArgs>|
        {
            &&& #[trigger] has_read::<SetattrArgs>(s, left, got)
            &&& match got {
                Err(e) => after.has_refused(&h, ctx, ctx2, step, e),
                Ok(args) => {
                    &&& after == h
                    &&& ctx2 == ctx
                    &&& h.has_begun_to_set(ctx, args, step)
                },
            }
        };
    let args = got->Ok_0;
    assert(args.stateid.seqid == sid.seqid);
    assert(args.stateid.other@ == sid.other@);
    assert(args.fattr.attrmask@ =~= fattr.attrmask@);
    assert(args.fattr.attr_vals@ == fattr.attr_vals@);
}

/// Who has set attributes is told the mask of those that were given.
pub proof fn law_setattr_tells_what_was_set(mask: Vec<u32>, answer: FsAnswer, step: OpStep, i: int)
    requires
        goes_on(OpTask::Setattr { mask }, answer, step),
        mask@.len() < u32::MAX,
        0 <= i < mask@.len(),
    ensures
        went_well(step),
        be32_at(step->result->Ok_0@) == mask@.len(),
        be32_at(step->result->Ok_0@.skip(4 + 4 * i)) == mask@[i],
        step->result->Ok_0@.len() == 4 + 4 * mask@.len(),
{
    reveal(CompoundHandler::has_resumed);
    let told = step->result->Ok_0@;
    let words = crate::xdr::be32s(mask@);
    be32_round_trip(mask@.len() as u32, words);
    crate::xdr::be32s_index(mask@, i, Seq::empty());
    assert(words + Seq::<u8>::empty() =~= words);
    assert(told.skip(4 + 4 * i) =~= words.skip(4 * i));
}

// ---------------------------------------------------------------------------
// The server
// ---------------------------------------------------------------------------

/// What is the same of all files: links are known, by other names too, attributes of their own are
/// not; handles last and are not given to two files; names keep their case and differ by it, are not
/// cut and are up to 255 bytes long; times can be set, and owners only by the right one; and how
/// much there is room for.
pub proof fn law_what_is_the_same_of_all_files(attrs: FileAttrs, fh: Option<Seq<u8>>)
    ensures
        attr_value(attrs, fh, 2) == Some(be32(0)),
        attr_value(attrs, fh, 5) == Some(be32(1)),
        attr_value(attrs, fh, 6) == Some(be32(1)),
        attr_value(attrs, fh, 7) == Some(be32(0)),
        attr_value(attrs, fh, 8) == Some(be64(1) + be64(0)),
        attr_value(attrs, fh, 9) == Some(be32(1)),
        attr_value(attrs, fh, 13) == Some(be32(3)),
        attr_value(attrs, fh, 15) == Some(be32(1)),
        attr_value(attrs, fh, 16) == Some(be32(0)),
        attr_value(attrs, fh, 17) == Some(be32(1)),
        attr_value(attrs, fh, 18) == Some(be32(1)),
        attr_value(attrs, fh, 21) == Some(be64(0x7fff_ffff_ffff_ffff)),
        attr_value(attrs, fh, 22) == Some(be64(0x7fff_ffff_ffff_ffff)),
        attr_value(attrs, fh, 23) == Some(be64(0xffff_ffff_ffff_ffff)),
        attr_value(attrs, fh, 26) == Some(be32(1)),
        attr_value(attrs, fh, 27) == Some(be64(0x7fff_ffff_ffff_ffff)),
        attr_value(attrs, fh, 28) == Some(be32(0xffff_ffff)),
        attr_value(attrs, fh, 34) == Some(be32(1)),
        attr_value(attrs, fh, 41) == Some(be32(0) + be32(0)),
        attr_value(attrs, fh, 42) == Some(be64(0x100_0000_0000)),
        attr_value(attrs, fh, 43) == Some(be64(0x100_0000_0000)),
        attr_value(attrs, fh, 44) == Some(be64(0xa00_0000_0000)),
        attr_value(attrs, fh, 51) == Some(be64(0) + be32(1)),
        attr_value(attrs, fh, 52) == Some(attrs.ctime.encoding()),
        attr_value(attrs, fh, 53) == Some(attrs.mtime.encoding()),
        attr_value(attrs, None, 19) is None,
{
}

/// Attributes of no number that is known are not told.
pub proof fn law_unknown_attributes_are_not_told(
    attrs: FileAttrs,
    fh: Option<Seq<u8>>,
    bit: u32,
)
    requires
        bit == 11 || bit == 12 || bit == 14 || bit == 24 || bit == 25 || bit == 32 || 38 <= bit
            <= 40 || bit == 46 || 48 <= bit <= 50 || bit == 54 || bit > 55,
    ensures
        attr_value(attrs, fh, bit) is None,
{
}

} // verus!
