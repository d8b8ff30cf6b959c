//! Byte-range locks.
//!
//! A lock state belongs to one owner and holds any number of ranges. A range that is added is
//! merged with the ranges of the same kind that it touches; a range that is taken out may leave
//! the parts before and behind it.

use crate::bytes::{key12, key12_injective, key_of12, le32, le32_at, le32_round_trip, put_le32,
    to_array};
use crate::error::{fails_with, failure, Nfs4Result, Nfs4Status};
use crate::table::{
    indexed, indexed_drop_all, indexed_insert, indexed_remove, indexed_update, keys128,
    take_one_more, without, KeyIndex, OwnerTable,
};
use crate::time::{boot_time, unix_time, Duration};
use crate::types::{Clientid4, Fileid4, LockOwner4, Stateid4};
use std::collections::HashMap;
use vstd::prelude::*;

verus! {

broadcast use vstd::std_specs::hash::group_hash_axioms;

// ---------------------------------------------------------------------------
// Ranges
// ---------------------------------------------------------------------------

/// The kind of a lock.
#[derive(Clone, Copy, Debug, PartialEq, Eq, Structural)]
pub enum LockType4 {
    /// Shared.
    ReadLt,
    /// Exclusive.
    WriteLt,
    /// Shared; the client is ready to wait.
    ReadwLt,
    /// Exclusive; the client is ready to wait.
    WritewLt,
}

impl LockType4 {
    /// The number that stands for the kind.
    pub open spec fn code_of(self) -> u32 {
        match self {
            LockType4::ReadLt => 1,
            LockType4::WriteLt => 2,
            LockType4::ReadwLt => 3,
            LockType4::WritewLt => 4,
        }
    }

    /// Whether the lock is exclusive.
    pub open spec fn writes(self) -> bool {
        self == LockType4::WriteLt || self == LockType4::WritewLt
    }

    /// The number that stands for the kind.
    pub fn code(&self) -> (r: u32)
        ensures
            r == self.code_of(),
    {
        match self {
            LockType4::ReadLt => 1,
            LockType4::WriteLt => 2,
            LockType4::ReadwLt => 3,
            LockType4::WritewLt => 4,
        }
    }

    /// Whether the lock is exclusive.
    pub fn is_write(&self) -> (r: bool)
        ensures
            r == self.writes(),
    {
        match self {
            LockType4::WriteLt => true,
            LockType4::WritewLt => true,
            _ => false,
        }
    }

    /// Whether the client is ready to wait for the lock.
    pub fn is_blocking(&self) -> (r: bool)
        ensures
            r == (*self == LockType4::ReadwLt || *self == LockType4::WritewLt),
    {
        match self {
            LockType4::ReadwLt => true,
            LockType4::WritewLt => true,
            _ => false,
        }
    }
}

impl LockType4 {
    /// The kind of lock that a number stands for.
    pub open spec fn of_code(v: u32) -> LockType4 {
        if v == 2 {
            LockType4::WriteLt
        } else if v == 3 {
            LockType4::ReadwLt
        } else if v == 4 {
            LockType4::WritewLt
        } else {
            LockType4::ReadLt
        }
    }
}

impl vstd::std_specs::convert::FromSpecImpl<u32> for LockType4 {
    open spec fn obeys_from_spec() -> bool {
        true
    }

    open spec fn from_spec(v: u32) -> Self {
        LockType4::of_code(v)
    }
}

impl From<u32> for LockType4 {
    fn from(v: u32) -> (r: Self) {
        match v {
            1 => LockType4::ReadLt,
            2 => LockType4::WriteLt,
            3 => LockType4::ReadwLt,
            4 => LockType4::WritewLt,
            _ => LockType4::ReadLt,
        }
    }
}

/// Where a range ends: behind its last byte, or at the end of everything for the lengths that
/// mean "to the end of the file".
pub open spec fn range_end(offset: u64, length: u64) -> u64 {
    if length == 0 || length == u64::MAX || offset + length > u64::MAX {
        u64::MAX
    } else {
        (offset + length) as u64
    }
}

/// Where a range ends.
pub fn end_of_range(offset: u64, length: u64) -> (r: u64)
    ensures
        r == range_end(offset, length),
{
    if length == 0 || length == u64::MAX {
        u64::MAX
    } else {
        offset.saturating_add(length)
    }
}

/// A locked range.
#[derive(Clone, Copy, Debug, PartialEq, Eq, Structural)]
pub struct LockEntry {
    pub fileid: Fileid4,
    pub lock_type: LockType4,
    pub offset: u64,
    /// Zero and `u64::MAX` mean to the end of the file.
    pub length: u64,
    /// When the lock was granted, in calendar time.
    pub granted_time: Duration,
}

impl LockEntry {
    /// Where the range ends.
    pub open spec fn spec_end(self) -> u64 {
        range_end(self.offset, self.length)
    }

    /// Whether the byte at `b` is in the range.
    pub open spec fn covers(self, b: u64) -> bool {
        self.offset <= b < self.spec_end()
    }

    /// Whether the range and the one from `offset` on have a byte in common.
    pub open spec fn meets(self, offset: u64, length: u64) -> bool {
        self.offset < range_end(offset, length) && offset < self.spec_end()
    }

    /// A range that is locked at `now`.
    pub fn new_at(
        now: Duration,
        fileid: Fileid4,
        lock_type: LockType4,
        offset: u64,
        length: u64,
    ) -> (r: Self)
        ensures
            r == (LockEntry { fileid, lock_type, offset, length, granted_time: now }),
    {
        LockEntry { fileid, lock_type, offset, length, granted_time: now }
    }

    /// A range that is locked now.
    pub fn new(fileid: Fileid4, lock_type: LockType4, offset: u64, length: u64) -> (r: Self)
        ensures
            r == (LockEntry { fileid, lock_type, offset, length, granted_time: r.granted_time }),
    {
        LockEntry::new_at(unix_time(), fileid, lock_type, offset, length)
    }

    /// Where the range ends.
    pub fn end(&self) -> (r: u64)
        ensures
            r == self.spec_end(),
    {
        end_of_range(self.offset, self.length)
    }

    /// Whether the range and the one from `offset` on have a byte in common.
    pub fn overlaps(&self, offset: u64, length: u64) -> (r: bool)
        ensures
            r == self.meets(offset, length),
    {
        self.offset < end_of_range(offset, length) && offset < self.end()
    }

    /// Where the range starts.
    pub fn get_offset(&self) -> (r: u64)
        ensures
            r == self.offset,
    {
        self.offset
    }

    /// The length of the range.
    pub fn get_length(&self) -> (r: u64)
        ensures
            r == self.length,
    {
        self.length
    }
}

/// Two ranges overlap exactly where there is a byte that both hold, as long as both hold a byte.
pub proof fn law_overlap_is_a_common_byte(e: LockEntry, offset: u64, length: u64)
    requires
        e.offset < e.spec_end(),
        offset < range_end(offset, length),
    ensures
        e.meets(offset, length) <==> exists|b: u64| #[trigger]
            e.covers(b) && offset <= b < range_end(offset, length),
{
    let b = if e.offset <= offset {
        offset
    } else {
        e.offset
    };
    if e.meets(offset, length) {
        assert(e.covers(b));
    }
}

// ---------------------------------------------------------------------------
// Adding a range
// ---------------------------------------------------------------------------

/// What has become of the ranges that were looked at while a range is added: those that stay, and
/// where the added range starts and ends now.
pub struct Merge {
    pub kept: Seq<LockEntry>,
    pub offset: u64,
    pub end: u64,
}

/// Whether a range is taken up into one that reaches from `offset` to `end`: both are of the same
/// file and kind, and they overlap or touch.
pub open spec fn joins(e: LockEntry, fileid: Fileid4, kind: LockType4, offset: u64, end: u64) -> bool {
    &&& e.fileid == fileid
    &&& e.lock_type == kind
    &&& !(e.spec_end() < offset)
    &&& !(end < e.offset)
}

/// Adding `new` to `s`: each range is looked at in turn, and taken up where it joins what the
/// added range has grown to so far.
pub open spec fn merge(s: Seq<LockEntry>, new: LockEntry) -> Merge
    decreases s.len(),
{
    if s.len() == 0 {
        Merge { kept: Seq::empty(), offset: new.offset, end: new.spec_end() }
    } else {
        let m = merge(s.drop_last(), new);
        let e = s.last();
        if joins(e, new.fileid, new.lock_type, m.offset, m.end) {
            Merge {
                kept: m.kept,
                offset: if e.offset < m.offset {
                    e.offset
                } else {
                    m.offset
                },
                end: if e.spec_end() > m.end {
                    e.spec_end()
                } else {
                    m.end
                },
            }
        } else {
            Merge { kept: m.kept.push(e), ..m }
        }
    }
}

/// The ranges after `new` was added.
pub open spec fn with_range(s: Seq<LockEntry>, new: LockEntry) -> Seq<LockEntry> {
    let m = merge(s, new);
    if m.kept.len() == s.len() {
        m.kept.push(new)
    } else {
        m.kept.push(
            LockEntry {
                offset: m.offset,
                length: if m.end == u64::MAX {
                    0
                } else {
                    (m.end - m.offset) as u64
                },
                ..new
            },
        )
    }
}

/// Whether a byte of a file is locked in a way by one of the ranges.
pub open spec fn holds(s: Seq<LockEntry>, fileid: Fileid4, kind: LockType4, b: u64) -> bool {
    exists|i: int|
        0 <= i < s.len() && (#[trigger] s[i]).fileid == fileid && s[i].lock_type == kind
            && s[i].covers(b)
}

proof fn merge_bounds(s: Seq<LockEntry>, new: LockEntry)
    ensures
        merge(s, new).kept.len() <= s.len(),
        merge(s, new).offset <= new.offset,
        merge(s, new).end >= new.spec_end(),
    decreases s.len(),
{
    if s.len() > 0 {
        merge_bounds(s.drop_last(), new);
    }
}

proof fn merge_covers(s: Seq<LockEntry>, new: LockEntry, b: u64, i: int)
    requires
        0 <= i < s.len(),
        s[i].covers(b),
    ensures
        ({
            let m = merge(s, new);
            ||| m.kept.contains(s[i])
            ||| s[i].fileid == new.fileid && s[i].lock_type == new.lock_type && m.offset <= b < m.end
        }),
    decreases s.len(),
{
    let m0 = merge(s.drop_last(), new);
    let m = merge(s, new);
    let e = s.last();
    merge_bounds(s.drop_last(), new);
    if i == s.len() - 1 {
        if !joins(e, new.fileid, new.lock_type, m0.offset, m0.end) {
            assert(m.kept[m.kept.len() - 1] == e);
        }
    } else {
        assert(s.drop_last()[i] == s[i]);
        merge_covers(s.drop_last(), new, b, i);
        if m0.kept.contains(s[i]) {
            let j = choose|j: int| 0 <= j < m0.kept.len() && m0.kept[j] == s[i];
            assert(m.kept[j] == s[i]);
        }
    }
}

/// What the added range has grown to holds no byte that was neither in it nor in a range of the
/// same file and kind.
proof fn merge_adds_nothing(s: Seq<LockEntry>, new: LockEntry, b: u64)
    requires
        merge(s, new).offset <= b < merge(s, new).end,
    ensures
        new.covers(b) || holds(s, new.fileid, new.lock_type, b),
    decreases s.len(),
{
    if s.len() > 0 {
        let t = s.drop_last();
        let m = merge(t, new);
        let e = s.last();
        if m.offset <= b < m.end {
            merge_adds_nothing(t, new, b);
            if !new.covers(b) {
                let i = choose|i: int|
                    0 <= i < t.len() && (#[trigger] t[i]).fileid == new.fileid && t[i].lock_type
                        == new.lock_type && t[i].covers(b);
                assert(s[i] == t[i]);
            }
        } else {
            assert(joins(e, new.fileid, new.lock_type, m.offset, m.end));
            assert(s[s.len() - 1].covers(b));
        }
    }
}

/// Adding a range locks exactly its bytes: a byte of a file is locked in a way afterwards if and
/// only if it was before or lies in the added range.
pub proof fn law_adding_locks_exactly_the_range(
    s: Seq<LockEntry>,
    new: LockEntry,
    fileid: Fileid4,
    kind: LockType4,
    b: u64,
)
    ensures
        holds(with_range(s, new), fileid, kind, b) <==> holds(s, fileid, kind, b) || fileid
            == new.fileid && kind == new.lock_type && new.covers(b),
{
    let m = merge(s, new);
    let w = with_range(s, new);
    merge_bounds(s, new);
    let last = w[w.len() - 1];
    if m.kept.len() == s.len() {
        merge_all_kept(s, new);
    }
    assert(last.fileid == new.fileid && last.lock_type == new.lock_type);
    assert(last.covers(b) <==> m.offset <= b < m.end);
    if holds(w, fileid, kind, b) {
        let i = choose|i: int|
            0 <= i < w.len() && (#[trigger] w[i]).fileid == fileid && w[i].lock_type == kind
                && w[i].covers(b);
        if i < w.len() - 1 {
            let j = kept_was_there(s, new, i);
            assert(s[j] == w[i]);
        } else {
            merge_adds_nothing(s, new, b);
        }
    }
    if fileid == new.fileid && kind == new.lock_type && new.covers(b) {
        assert(w[w.len() - 1].covers(b));
    } else if holds(s, fileid, kind, b) {
        let i = choose|i: int|
            0 <= i < s.len() && (#[trigger] s[i]).fileid == fileid && s[i].lock_type == kind
                && s[i].covers(b);
        merge_covers(s, new, b, i);
        if m.kept.contains(s[i]) {
            let j = choose|j: int| 0 <= j < m.kept.len() && m.kept[j] == s[i];
            assert(w[j] == s[i]);
        } else {
            assert(w[w.len() - 1].covers(b));
        }
    }
}

proof fn merge_all_kept(s: Seq<LockEntry>, new: LockEntry)
    requires
        merge(s, new).kept.len() == s.len(),
    ensures
        merge(s, new).kept == s,
        merge(s, new).offset == new.offset,
        merge(s, new).end == new.spec_end(),
    decreases s.len(),
{
    if s.len() > 0 {
        merge_bounds(s.drop_last(), new);
        merge_all_kept(s.drop_last(), new);
        assert(merge(s, new).kept =~= s);
    } else {
        assert(merge(s, new).kept =~= s);
    }
}

// ---------------------------------------------------------------------------
// Taking a range out
// ---------------------------------------------------------------------------

/// Whether a range loses bytes when what reaches from `offset` to `end` is taken out.
pub open spec fn cut(e: LockEntry, offset: u64, end: u64) -> bool {
    !(end <= e.offset || offset >= e.spec_end())
}

/// What is left before the part that is taken out.
pub open spec fn part_before(e: LockEntry, offset: u64, now: Duration) -> Seq<LockEntry> {
    if offset > e.offset {
        seq![LockEntry { length: (offset - e.offset) as u64, granted_time: now, ..e }]
    } else {
        Seq::empty()
    }
}

/// What is left behind the part that is taken out.
pub open spec fn part_behind(e: LockEntry, end: u64, now: Duration) -> Seq<LockEntry> {
    if end < e.spec_end() {
        seq![
            LockEntry {
                offset: end,
                length: if e.spec_end() == u64::MAX {
                    0
                } else {
                    (e.spec_end() - end) as u64
                },
                granted_time: now,
                ..e
            },
        ]
    } else {
        Seq::empty()
    }
}

/// The ranges that lose nothing.
pub open spec fn uncut(s: Seq<LockEntry>, offset: u64, end: u64) -> Seq<LockEntry>
    decreases s.len(),
{
    if s.len() == 0 {
        Seq::empty()
    } else if cut(s.last(), offset, end) {
        uncut(s.drop_last(), offset, end)
    } else {
        uncut(s.drop_last(), offset, end).push(s.last())
    }
}

/// What is left of the ranges that lose bytes.
pub open spec fn parts(s: Seq<LockEntry>, offset: u64, end: u64, now: Duration) -> Seq<LockEntry>
    decreases s.len(),
{
    if s.len() == 0 {
        Seq::empty()
    } else if cut(s.last(), offset, end) {
        parts(s.drop_last(), offset, end, now) + part_before(s.last(), offset, now) + part_behind(
            s.last(),
            end,
            now,
        )
    } else {
        parts(s.drop_last(), offset, end, now)
    }
}

/// How many ranges are left in two parts when what reaches from `offset` to `end` is taken out.
pub open spec fn splits(s: Seq<LockEntry>, offset: u64, end: u64) -> nat
    decreases s.len(),
{
    if s.len() == 0 {
        0
    } else {
        splits(s.drop_last(), offset, end) + if s.last().offset < offset && end < s.last().spec_end() {
            1nat
        } else {
            0nat
        }
    }
}

/// The ranges after what reaches from `offset` to `end` was taken out.
pub open spec fn without_range(s: Seq<LockEntry>, offset: u64, end: u64, now: Duration) -> Seq<
    LockEntry,
> {
    uncut(s, offset, end) + parts(s, offset, end, now)
}

/// The ranges that are in other files.
pub open spec fn elsewhere(s: Seq<LockEntry>, fileid: Fileid4) -> Seq<LockEntry>
    decreases s.len(),
{
    if s.len() == 0 {
        Seq::empty()
    } else if s.last().fileid == fileid {
        elsewhere(s.drop_last(), fileid)
    } else {
        elsewhere(s.drop_last(), fileid).push(s.last())
    }
}

/// Taking out the ranges of a file unlocks all of the file and nothing else: a byte is locked
/// afterwards if and only if it was before and is in another file.
pub proof fn law_leaving_a_file_frees_it_alone(
    s: Seq<LockEntry>,
    fileid: Fileid4,
    other: Fileid4,
    kind: LockType4,
    b: u64,
)
    ensures
        holds(elsewhere(s, fileid), other, kind, b) <==> holds(s, other, kind, b) && other != fileid,
    decreases s.len(),
{
    if s.len() > 0 {
        let t = s.drop_last();
        let w = elsewhere(s, fileid);
        let v = elsewhere(t, fileid);
        law_leaving_a_file_frees_it_alone(t, fileid, other, kind, b);
        if holds(w, other, kind, b) {
            let i = choose|i: int|
                0 <= i < w.len() && (#[trigger] w[i]).fileid == other && w[i].lock_type == kind
                    && w[i].covers(b);
            if i < v.len() {
                assert(v[i] == w[i]);
                let j = choose|j: int|
                    0 <= j < t.len() && (#[trigger] t[j]).fileid == other && t[j].lock_type == kind
                        && t[j].covers(b);
                assert(s[j] == t[j]);
            } else {
                assert(s[s.len() - 1] == w[i]);
            }
        }
        if holds(s, other, kind, b) && other != fileid {
            let j = choose|j: int|
                0 <= j < s.len() && (#[trigger] s[j]).fileid == other && s[j].lock_type == kind
                    && s[j].covers(b);
            if j < t.len() {
                assert(t[j] == s[j]);
                let i = choose|i: int|
                    0 <= i < v.len() && (#[trigger] v[i]).fileid == other && v[i].lock_type == kind
                        && v[i].covers(b);
                assert(w[i] == v[i]);
            } else {
                assert(w[w.len() - 1] == s[j]);
            }
        }
    }
}

/// `e` lies in a range of the same file and kind, and clear of what was taken out.
pub open spec fn lies_inside(e: LockEntry, whole: LockEntry, offset: u64, end: u64) -> bool {
    &&& e.fileid == whole.fileid
    &&& e.lock_type == whole.lock_type
    &&& whole.offset <= e.offset
    &&& e.spec_end() <= whole.spec_end()
    &&& e.spec_end() <= offset || end <= e.offset
}

proof fn uncut_inside(s: Seq<LockEntry>, offset: u64, end: u64, i: int) -> (j: int)
    requires
        0 <= i < uncut(s, offset, end).len(),
    ensures
        0 <= j < s.len(),
        lies_inside(uncut(s, offset, end)[i], s[j], offset, end),
    decreases s.len(),
{
    let t = s.drop_last();
    let u = uncut(t, offset, end);
    if i < u.len() {
        assert(uncut(s, offset, end)[i] == u[i]);
        let j = uncut_inside(t, offset, end, i);
        assert(t[j] == s[j]);
        j
    } else {
        assert(uncut(s, offset, end)[i] == s.last());
        s.len() - 1
    }
}

proof fn parts_inside(s: Seq<LockEntry>, offset: u64, end: u64, now: Duration, i: int) -> (j: int)
    requires
        0 <= i < parts(s, offset, end, now).len(),
    ensures
        0 <= j < s.len(),
        lies_inside(parts(s, offset, end, now)[i], s[j], offset, end),
    decreases s.len(),
{
    let t = s.drop_last();
    let p = parts(t, offset, end, now);
    let last = s.last();
    if i < p.len() {
        assert(parts(s, offset, end, now)[i] == p[i]);
        let j = parts_inside(t, offset, end, now, i);
        assert(t[j] == s[j]);
        j
    } else {
        let before = part_before(last, offset, now);
        let behind = part_behind(last, end, now);
        let e = parts(s, offset, end, now)[i];
        assert(cut(last, offset, end));
        assert(parts(s, offset, end, now) == p + before + behind);
        if i - p.len() < before.len() {
            assert(e == before[i - p.len()]);
        } else {
            assert(e == behind[i - p.len() - before.len()]);
        }
        s.len() - 1
    }
}

/// Every range that is left lies in a range of the same file and kind that was there before, and
/// clear of what was taken out.
proof fn rest_lies_inside(
    s: Seq<LockEntry>,
    offset: u64,
    end: u64,
    now: Duration,
    i: int,
) -> (j: int)
    requires
        0 <= i < without_range(s, offset, end, now).len(),
    ensures
        0 <= j < s.len(),
        lies_inside(without_range(s, offset, end, now)[i], s[j], offset, end),
{
    let u = uncut(s, offset, end);
    if i < u.len() {
        uncut_inside(s, offset, end, i)
    } else {
        parts_inside(s, offset, end, now, i - u.len())
    }
}

/// A byte that was locked and is not taken out is in one of the ranges that are left.
proof fn rest_keeps(
    s: Seq<LockEntry>,
    offset: u64,
    end: u64,
    now: Duration,
    i: int,
    b: u64,
)
    requires
        0 <= i < s.len(),
        s[i].covers(b),
        !(offset <= b < end),
    ensures
        holds(uncut(s, offset, end), s[i].fileid, s[i].lock_type, b) || holds(
            parts(s, offset, end, now),
            s[i].fileid,
            s[i].lock_type,
            b,
        ),
    decreases s.len(),
{
    let t = s.drop_last();
    let e = s.last();
    let u = uncut(s, offset, end);
    let p = parts(s, offset, end, now);
    let pt = parts(t, offset, end, now);
    if i < s.len() - 1 {
        assert(t[i] == s[i]);
        rest_keeps(t, offset, end, now, i, b);
        if holds(uncut(t, offset, end), s[i].fileid, s[i].lock_type, b) {
            let ut = uncut(t, offset, end);
            let j = choose|j: int|
                0 <= j < ut.len() && (#[trigger] ut[j]).fileid == s[i].fileid && ut[j].lock_type
                    == s[i].lock_type && ut[j].covers(b);
            assert(u[j] == ut[j]);
        } else {
            let j = choose|j: int|
                0 <= j < pt.len() && (#[trigger] pt[j]).fileid == s[i].fileid && pt[j].lock_type
                    == s[i].lock_type && pt[j].covers(b);
            assert(p[j] == pt[j]);
        }
    } else if !cut(e, offset, end) {
        assert(u[u.len() - 1] == e);
    } else {
        let before = part_before(e, offset, now);
        if b < offset {
            assert(p[pt.len() as int] == before[0]);
            assert(p[pt.len() as int].covers(b));
        } else {
            let k = pt.len() + before.len();
            assert(p[k as int] == part_behind(e, end, now)[0]);
            assert(p[k as int].covers(b));
        }
    }
}

/// Taking a range out unlocks exactly its bytes: a byte is locked afterwards if and only if it was
/// before and lies outside of the range.
pub proof fn law_unlock_frees_exactly_the_range(
    s: Seq<LockEntry>,
    offset: u64,
    end: u64,
    now: Duration,
    fileid: Fileid4,
    kind: LockType4,
    b: u64,
)
    ensures
        holds(without_range(s, offset, end, now), fileid, kind, b) <==> holds(s, fileid, kind, b)
            && !(offset <= b < end),
{
    let u = uncut(s, offset, end);
    let p = parts(s, offset, end, now);
    let w = without_range(s, offset, end, now);
    if holds(w, fileid, kind, b) {
        let i = choose|i: int|
            0 <= i < w.len() && (#[trigger] w[i]).fileid == fileid && w[i].lock_type == kind
                && w[i].covers(b);
        let j = rest_lies_inside(s, offset, end, now, i);
        assert(s[j].covers(b));
    }
    if holds(s, fileid, kind, b) && !(offset <= b < end) {
        let i = choose|i: int|
            0 <= i < s.len() && (#[trigger] s[i]).fileid == fileid && s[i].lock_type == kind
                && s[i].covers(b);
        rest_keeps(s, offset, end, now, i, b);
        if holds(u, fileid, kind, b) {
            let j = choose|j: int|
                0 <= j < u.len() && (#[trigger] u[j]).fileid == fileid && u[j].lock_type == kind
                    && u[j].covers(b);
            assert(w[j] == u[j]);
        } else {
            let j = choose|j: int|
                0 <= j < p.len() && (#[trigger] p[j]).fileid == fileid && p[j].lock_type == kind
                    && p[j].covers(b);
            assert(w[u.len() + j] == p[j]);
        }
    }
}

// ---------------------------------------------------------------------------
// Lock states
// ---------------------------------------------------------------------------

/// Whether a lock state is held or waited for.
#[derive(Clone, Copy, Debug, PartialEq, Eq, Structural)]
pub enum LockStateStatus {
    Active,
    Blocked,
}

/// The locks that an owner holds under one state id.
#[derive(Debug)]
pub struct LockState {
    /// As it was handed out first.
    pub stateid: Stateid4,
    pub owner: LockOwner4,
    pub lock_entries: Vec<LockEntry>,
    pub status: LockStateStatus,
    /// Counts the changes.
    pub seqid: u32,
}

/// Whether a range stands in the way of a lock of kind `kind` by another owner.
pub open spec fn blocks(e: LockEntry, kind: LockType4, offset: u64, length: u64) -> bool {
    e.meets(offset, length) && (e.lock_type.writes() || kind.writes())
}

impl LockState {
    /// Whether the state stands in the way of a lock; an owner never is in its own way.
    pub open spec fn conflicts(
        &self,
        kind: LockType4,
        offset: u64,
        length: u64,
        owner: LockOwner4,
    ) -> bool {
        &&& !self.owner.same(&owner)
        &&& exists|i: int|
            0 <= i < self.lock_entries@.len() && blocks(
                #[trigger] self.lock_entries@[i],
                kind,
                offset,
                length,
            )
    }

    /// Whether a range of the state in the file stands in the way of a lock; an owner never is in its
    /// own way.
    pub open spec fn bars(
        &self,
        fileid: Fileid4,
        kind: LockType4,
        offset: u64,
        length: u64,
        owner: LockOwner4,
    ) -> bool {
        &&& !self.owner.same(&owner)
        &&& exists|i: int|
            0 <= i < self.lock_entries@.len() && (#[trigger] self.lock_entries@[i]).fileid == fileid
                && blocks(self.lock_entries@[i], kind, offset, length)
    }

    /// Whether a range of the state is in the file.
    pub open spec fn has_file(&self, fileid: Fileid4) -> bool {
        exists|i: int|
            0 <= i < self.lock_entries@.len() && (#[trigger] self.lock_entries@[i]).fileid
                == fileid
    }

    /// `self` is `before` with other ranges.
    pub open spec fn is_with_ranges(&self, before: LockState, ranges: Seq<LockEntry>) -> bool {
        &&& self.stateid == before.stateid
        &&& self.owner == before.owner
        &&& self.lock_entries@ == ranges
        &&& self.status == before.status
        &&& self.seqid == before.seqid
    }

    /// A state with one range.
    pub fn new(stateid: Stateid4, owner: LockOwner4, initial_entry: LockEntry) -> (r: Self)
        ensures
            r.stateid == stateid,
            r.owner == owner,
            r.lock_entries@ == seq![initial_entry],
            r.status == LockStateStatus::Active,
            r.seqid == stateid.seqid,
    {
        let mut lock_entries: Vec<LockEntry> = Vec::new();
        lock_entries.push(initial_entry);
        assert(lock_entries@ =~= seq![initial_entry]);
        LockState {
            stateid,
            owner,
            lock_entries,
            status: LockStateStatus::Active,
            seqid: stateid.seqid,
        }
    }

    /// The state id with the present count.
    pub fn get_stateid(&self) -> (r: Stateid4)
        ensures
            r.seqid == self.seqid,
            r.other == self.stateid.other,
    {
        Stateid4::new(self.seqid, self.stateid.other)
    }

    /// Counts a change, and gives the state id with the new count.
    pub fn update_stateid(&mut self) -> (r: Stateid4)
        ensures
            *final(self) == (LockState { seqid: old(self).seqid.wrapping_add(1), ..*old(self) }),
            r.seqid == final(self).seqid,
            r.other == old(self).stateid.other,
    {
        self.seqid = self.seqid.wrapping_add(1);
        Stateid4::new(self.seqid, self.stateid.other)
    }

    /// Whether the state stands in the way of a lock; an owner never is in its own way.
    pub fn conflicts_with(
        &self,
        other_type: LockType4,
        offset: u64,
        length: u64,
        owner: &LockOwner4,
    ) -> (r: bool)
        ensures
            r == self.conflicts(other_type, offset, length, *owner),
    {
        if self.owner == *owner {
            return false;
        }
        let mut i: usize = 0;
        while i < self.lock_entries.len()
            invariant
                i <= self.lock_entries.len(),
                !self.owner.same(owner),
                forall|j: int|
                    0 <= j < i ==> !blocks(
                        #[trigger] self.lock_entries@[j],
                        other_type,
                        offset,
                        length,
                    ),
            decreases self.lock_entries.len() - i,
        {
            let e = &self.lock_entries[i];
            if e.overlaps(offset, length) && (e.lock_type.is_write() || other_type.is_write()) {
                assert(blocks(self.lock_entries@[i as int], other_type, offset, length));
                return true;
            }
            i = i + 1;
        }
        false
    }

    /// Whether a range of the state in the file stands in the way of a lock; an owner never is in its
    /// own way.
    pub fn is_in_the_way(
        &self,
        fileid: Fileid4,
        lock_type: LockType4,
        offset: u64,
        length: u64,
        owner: &LockOwner4,
    ) -> (r: bool)
        ensures
            r == self.bars(fileid, lock_type, offset, length, *owner),
    {
        if self.owner == *owner {
            return false;
        }
        let mut i: usize = 0;
        while i < self.lock_entries.len()
            invariant
                i <= self.lock_entries.len(),
                !self.owner.same(owner),
                forall|j: int|
                    0 <= j < i ==> !((#[trigger] self.lock_entries@[j]).fileid == fileid && blocks(
                        self.lock_entries@[j],
                        lock_type,
                        offset,
                        length,
                    )),
            decreases self.lock_entries.len() - i,
        {
            let e = &self.lock_entries[i];
            if e.fileid == fileid && e.overlaps(offset, length) && (e.lock_type.is_write()
                || lock_type.is_write()) {
                assert(self.lock_entries@[i as int].fileid == fileid);
                return true;
            }
            i = i + 1;
        }
        false
    }

    /// How many ranges are left in two parts when a range is taken out.
    fn count_splits(&self, offset: u64, length: u64) -> (r: usize)
        ensures
            r == splits(self.lock_entries@, offset, range_end(offset, length)),
    {
        let end: u64 = end_of_range(offset, length);
        let mut n: usize = 0;
        let mut i: usize = 0;
        assert(self.lock_entries@.take(0) =~= Seq::empty());
        while i < self.lock_entries.len()
            invariant
                i <= self.lock_entries.len(),
                end == range_end(offset, length),
                n == splits(self.lock_entries@.take(i as int), offset, end),
                n <= i,
            decreases self.lock_entries.len() - i,
        {
            proof {
                take_one_more(self.lock_entries@, i as int);
                assert(self.lock_entries@.take(i + 1).drop_last() =~= self.lock_entries@.take(
                    i as int,
                ));
            }
            if self.lock_entries[i].offset < offset && end < self.lock_entries[i].end() {
                n = n + 1;
            }
            i = i + 1;
        }
        assert(self.lock_entries@.take(i as int) =~= self.lock_entries@);
        n
    }

    /// Takes out the ranges of a file, and tells whether no range is left.
    pub fn remove_file(&mut self, fileid: Fileid4) -> (r: bool)
        ensures
            final(self).is_with_ranges(*old(self), elsewhere(old(self).lock_entries@, fileid)),
            r == (final(self).lock_entries@.len() == 0),
    {
        let mut kept: Vec<LockEntry> = Vec::new();
        let mut i: usize = 0;
        assert(self.lock_entries@.take(0) =~= Seq::empty());
        while i < self.lock_entries.len()
            invariant
                *self == *old(self),
                i <= self.lock_entries.len(),
                kept@ == elsewhere(self.lock_entries@.take(i as int), fileid),
            decreases self.lock_entries.len() - i,
        {
            proof {
                take_one_more(self.lock_entries@, i as int);
                assert(self.lock_entries@.take(i + 1).drop_last() =~= self.lock_entries@.take(
                    i as int,
                ));
            }
            let e = self.lock_entries[i];
            if e.fileid != fileid {
                kept.push(e);
            }
            i = i + 1;
        }
        assert(self.lock_entries@.take(i as int) =~= self.lock_entries@);
        self.lock_entries = kept;
        self.lock_entries.len() == 0
    }

    /// Whether a range of the state is in the file.
    pub fn in_file(&self, fileid: Fileid4) -> (r: bool)
        ensures
            r == self.has_file(fileid),
    {
        let mut i: usize = 0;
        while i < self.lock_entries.len()
            invariant
                i <= self.lock_entries.len(),
                forall|j: int| 0 <= j < i ==> (#[trigger] self.lock_entries@[j]).fileid != fileid,
            decreases self.lock_entries.len() - i,
        {
            if self.lock_entries[i].fileid == fileid {
                assert(self.lock_entries@[i as int].fileid == fileid);
                return true;
            }
            i = i + 1;
        }
        false
    }

    /// Adds a range, which takes up the ranges of the same file and kind that it overlaps or touches.
    pub fn add_lock_entry(&mut self, new_entry: LockEntry)
        ensures
            final(self).is_with_ranges(
                *old(self),
                with_range(old(self).lock_entries@, new_entry),
            ),
    {
        let mut kept: Vec<LockEntry> = Vec::new();
        let mut offset: u64 = new_entry.get_offset();
        let mut end: u64 = new_entry.end();
        let mut i: usize = 0;
        assert(self.lock_entries@.take(0) =~= Seq::empty());
        while i < self.lock_entries.len()
            invariant
                *self == *old(self),
                i <= self.lock_entries.len(),
                merge(self.lock_entries@.take(i as int), new_entry) == (Merge {
                    kept: kept@,
                    offset,
                    end,
                }),
                offset <= new_entry.offset,
                kept@.len() <= i,
            decreases self.lock_entries.len() - i,
        {
            let e = self.lock_entries[i];
            proof {
                take_one_more(self.lock_entries@, i as int);
                assert(self.lock_entries@.take(i + 1).drop_last() =~= self.lock_entries@.take(
                    i as int,
                ));
            }
            let e_offset: u64 = e.get_offset();
            let e_end: u64 = e.end();
            if e.fileid != new_entry.fileid || e.lock_type != new_entry.lock_type || e_end < offset
                || end < e_offset {
                kept.push(e);
            } else {
                if e_end > end {
                    end = e_end;
                }
                if e_offset < offset {
                    offset = e_offset;
                }
            }
            i = i + 1;
        }
        assert(self.lock_entries@.take(i as int) =~= self.lock_entries@);
        proof {
            merge_bounds(self.lock_entries@, new_entry);
        }
        let mut entry = new_entry;
        if kept.len() < self.lock_entries.len() {
            entry.offset = offset;
            entry.length =
            if end == u64::MAX {
                0
            } else {
                end.saturating_sub(offset)
            };
            proof {
                merge_grows(self.lock_entries@, new_entry);
            }
        }
        kept.push(entry);
        self.lock_entries = kept;
    }

    /// Takes a range out, and tells whether no range is left.
    pub fn remove_lock_range_at(&mut self, now: Duration, offset: u64, length: u64) -> (r:
        Nfs4Result<bool>)
        ensures
            final(self).is_with_ranges(
                *old(self),
                without_range(
                    old(self).lock_entries@,
                    offset,
                    range_end(offset, length),
                    now,
                ),
            ),
            r is Ok,
            r->Ok_0 == (final(self).lock_entries@.len() == 0),
    {
        let end: u64 = end_of_range(offset, length);
        let mut kept: Vec<LockEntry> = Vec::new();
        let mut pieces: Vec<LockEntry> = Vec::new();
        let mut i: usize = 0;
        assert(self.lock_entries@.take(0) =~= Seq::empty());
        while i < self.lock_entries.len()
            invariant
                *self == *old(self),
                end == range_end(offset, length),
                i <= self.lock_entries.len(),
                kept@ == uncut(self.lock_entries@.take(i as int), offset, end),
                pieces@ == parts(self.lock_entries@.take(i as int), offset, end, now),
            decreases self.lock_entries.len() - i,
        {
            let e = self.lock_entries[i];
            proof {
                take_one_more(self.lock_entries@, i as int);
                assert(self.lock_entries@.take(i + 1).drop_last() =~= self.lock_entries@.take(
                    i as int,
                ));
            }
            let e_offset: u64 = e.get_offset();
            let e_end: u64 = e.end();
            if end <= e_offset || offset >= e_end {
                kept.push(e);
            } else {
                let ghost start = pieces@;
                if offset > e_offset {
                    pieces.push(
                        LockEntry::new_at(now, e.fileid, e.lock_type, e_offset, offset - e_offset),
                    );
                }
                assert(pieces@ =~= start + part_before(e, offset, now));
                if end < e_end {
                    let right: u64 = if e_end == u64::MAX {
                        0
                    } else {
                        e_end - end
                    };
                    pieces.push(LockEntry::new_at(now, e.fileid, e.lock_type, end, right));
                }
                assert(pieces@ =~= start + part_before(e, offset, now) + part_behind(e, end, now));
            }
            i = i + 1;
        }
        assert(self.lock_entries@.take(i as int) =~= self.lock_entries@);
        let ghost tail = pieces@;
        kept.append(&mut pieces);
        self.lock_entries = kept;
        Ok(self.lock_entries.len() == 0)
    }

    /// Takes a range out, and tells whether no range is left.
    pub fn remove_lock_range(&mut self, offset: u64, length: u64) -> (r: Nfs4Result<bool>)
        ensures
            exists|now: Duration|
                final(self).is_with_ranges(
                    *old(self),
                    #[trigger] without_range(
                        old(self).lock_entries@,
                        offset,
                        range_end(offset, length),
                        now,
                    ),
                ),
            r is Ok,
            r->Ok_0 == (final(self).lock_entries@.len() == 0),
    {
        self.remove_lock_range_at(unix_time(), offset, length)
    }
}

proof fn merge_grows(s: Seq<LockEntry>, new: LockEntry)
    ensures
        merge(s, new).kept.len() < s.len() ==> merge(s, new).offset <= merge(s, new).end,
    decreases s.len(),
{
    if s.len() > 0 {
        merge_grows(s.drop_last(), new);
        merge_bounds(s.drop_last(), new);
        let m = merge(s.drop_last(), new);
    }
    merge_bounds(s, new);
}

// ---------------------------------------------------------------------------
// All locks
// ---------------------------------------------------------------------------

/// A lock that is waited for.
#[derive(Debug)]
pub struct BlockedLock {
    pub lock_state: LockState,
    /// What stands in its way.
    pub blocking_locks: Vec<[u8; 12]>,
    /// Since when it is waited for, in calendar time.
    pub block_time: Duration,
}

/// How often what has happened to locks; each count starts anew after its last number.
#[derive(Clone, Copy, Debug, PartialEq, Eq, Structural)]
pub struct LockStats {
    pub total_granted: u32,
    pub total_denied: u32,
    pub total_blocked: u32,
    pub total_released: u32,
    pub total_merges: u32,
    pub total_splits: u32,
}

/// The counts at one moment.
#[derive(Clone, Copy, Debug, PartialEq, Eq, Structural)]
pub struct LockStatsSnapshot {
    pub total_granted: u32,
    pub total_denied: u32,
    pub total_blocked: u32,
    pub total_released: u32,
    pub total_merges: u32,
    pub total_splits: u32,
}

impl Default for LockStats {
    fn default() -> (r: Self)
        ensures
            r == (LockStats {
                total_granted: 0,
                total_denied: 0,
                total_blocked: 0,
                total_released: 0,
                total_merges: 0,
                total_splits: 0,
            }),
    {
        LockStats {
            total_granted: 0,
            total_denied: 0,
            total_blocked: 0,
            total_released: 0,
            total_merges: 0,
            total_splits: 0,
        }
    }
}

/// A count after `n` more; it starts anew after its last number.
fn count_on(count: u32, n: usize) -> (r: u32)
    ensures
        r == ((count + n) % 0x1_0000_0000) as u32,
{
    let more: u64 = (n as u64) % 0x1_0000_0000;
    ((count as u64 + more) % 0x1_0000_0000) as u32
}

impl LockStats {
    /// The counts at this moment.
    pub fn snapshot(&self) -> (r: LockStatsSnapshot)
        ensures
            r.total_granted == self.total_granted,
            r.total_denied == self.total_denied,
            r.total_blocked == self.total_blocked,
            r.total_released == self.total_released,
            r.total_merges == self.total_merges,
            r.total_splits == self.total_splits,
    {
        LockStatsSnapshot {
            total_granted: self.total_granted,
            total_denied: self.total_denied,
            total_blocked: self.total_blocked,
            total_released: self.total_released,
            total_merges: self.total_merges,
            total_splits: self.total_splits,
        }
    }
}

/// All locks.
pub struct LockManager {
    /// By the number of the state id.
    pub lock_states: HashMap<u128, LockState>,
    pub client_locks: KeyIndex,
    /// The state that was last made for an owner.
    pub owner_locks: OwnerTable,
    pub blocked_locks: Vec<BlockedLock>,
    pub next_stateid: u32,
    pub boot_time: u64,
    pub stats: LockStats,
}

/// What tells the lock state apart that is made `n`th by a server that started at `boot`.
pub open spec fn lock_other(boot: u64, n: u32) -> Seq<u8> {
    le32((boot as u32) ^ 0xffff_ffffu32) + le32(n) + le32(0)
}

/// Which one a lock state was in the order of making.
pub open spec fn lock_serial(other: Seq<u8>) -> u32 {
    le32_at(other.skip(4))
}

proof fn serial_of_lock(boot: u64, n: u32)
    ensures
        lock_other(boot, n).len() == 12,
        lock_serial(lock_other(boot, n)) == n,
{
    le32_round_trip(n, le32(0), le32(0));
    assert(lock_other(boot, n).skip(4) =~= le32(n) + le32(0));
}

/// Lock states that were made at different times have different ids.
pub proof fn law_lock_ids_differ(boot: u64, n: u32, m: u32)
    requires
        n != m,
    ensures
        lock_other(boot, n) != lock_other(boot, m),
{
    serial_of_lock(boot, n);
    serial_of_lock(boot, m);
}

/// The state id that is pointed to.
pub open spec fn copied(sid: Option<&Stateid4>) -> Option<Stateid4> {
    match sid {
        Some(s) => Some(*s),
        None => None,
    }
}

impl LockManager {
    /// The client that a lock state belongs to.
    pub open spec fn client() -> spec_fn(LockState) -> u64 {
        |s: LockState| s.owner.clientid
    }

    /// A lock state stands under its own id and was made by this server.
    pub open spec fn state_ok(&self, k: u128) -> bool {
        let s = self.lock_states@[k];
        &&& key12(s.stateid.other@) == k
        &&& lock_serial(s.stateid.other@) < self.next_stateid
    }

    /// States stand under their ids, each is listed with its client, and the state that is noted
    /// for an owner is there and is the owner's.
    pub open spec fn wf(&self) -> bool {
        &&& forall|k: u128| #[trigger] self.lock_states@.contains_key(k) ==> self.state_ok(k)
        &&& indexed(self.lock_states@, self.client_locks, Self::client())
        &&& forall|o: (u64, Seq<u8>)| #[trigger]
            self.owner_locks@.contains_key(o) ==> {
                let k = self.owner_locks@[o];
                &&& self.lock_states@.contains_key(k)
                &&& self.lock_states@[k].owner.clientid == o.0
                &&& self.lock_states@[k].owner.owner@ == o.1
            }
    }

    /// The same but for the states and the counts.
    pub open spec fn same_rest(&self, before: &LockManager) -> bool {
        &&& self.blocked_locks == before.blocked_locks
        &&& self.next_stateid == before.next_stateid
        &&& self.boot_time == before.boot_time
    }

    /// No locks.
    pub fn new() -> (r: Self)
        ensures
            r.wf(),
            r.lock_states@ == Map::<u128, LockState>::empty(),
            r.owner_locks@ == Map::<(u64, Seq<u8>), u128>::empty(),
            r.blocked_locks@.len() == 0,
            r.next_stateid == 1,
            r.stats == (LockStats {
                total_granted: 0,
                total_denied: 0,
                total_blocked: 0,
                total_released: 0,
                total_merges: 0,
                total_splits: 0,
            }),
    {
        LockManager {
            lock_states: HashMap::new(),
            client_locks: KeyIndex::new(),
            owner_locks: OwnerTable::new(),
            blocked_locks: Vec::new(),
            next_stateid: 1,
            boot_time: boot_time(),
            stats: LockStats::default(),
        }
    }

    /// The counts at this moment.
    pub fn get_stats(&self) -> (r: LockStatsSnapshot)
        ensures
            r.total_granted == self.stats.total_granted,
            r.total_denied == self.stats.total_denied,
            r.total_blocked == self.stats.total_blocked,
            r.total_released == self.stats.total_released,
            r.total_merges == self.stats.total_merges,
            r.total_splits == self.stats.total_splits,
    {
        self.stats.snapshot()
    }

    /// How many lock states are held, and how many are waited for.
    pub fn get_lock_counts(&self) -> (r: (usize, usize))
        ensures
            r.0 == self.lock_states@.len(),
            r.1 == self.blocked_locks@.len(),
    {
        (self.lock_states.len(), self.blocked_locks.len())
    }

    fn generate_stateid(&mut self) -> (r: Stateid4)
        requires
            old(self).next_stateid < u32::MAX,
        ensures
            r.seqid == 1,
            r.other@ == lock_other(old(self).boot_time, old(self).next_stateid),
            *final(self) == (LockManager {
                next_stateid: (old(self).next_stateid + 1) as u32,
                ..*old(self)
            }),
    {
        let n: u32 = self.next_stateid;
        self.next_stateid = n + 1;
        let mut other: Vec<u8> = Vec::new();
        put_le32(&mut other, (#[verifier::truncate] (self.boot_time as u32)) ^ 0xffff_ffff);
        put_le32(&mut other, n);
        put_le32(&mut other, 0);
        proof {
            serial_of_lock(self.boot_time, n);
            assert(other@ =~= lock_other(self.boot_time, n));
        }
        Stateid4::new(1, to_array(other.as_slice()))
    }

    /// Whether a state stands in the way of a lock by a range that it has in the file.
    pub open spec fn in_the_way(
        &self,
        k: u128,
        fileid: Fileid4,
        kind: LockType4,
        offset: u64,
        length: u64,
        owner: LockOwner4,
    ) -> bool {
        &&& self.lock_states@.contains_key(k)
        &&& self.lock_states@[k].bars(fileid, kind, offset, length, owner)
    }

    /// The states that stand in the way of a lock by a range that they have in the file.
    pub fn find_conflicts(
        &self,
        fileid: Fileid4,
        lock_type: LockType4,
        offset: u64,
        length: u64,
        owner: &LockOwner4,
    ) -> (r: Vec<u128>)
        ensures
            forall|k: u128| #[trigger]
                r@.contains(k) <==> self.in_the_way(k, fileid, lock_type, offset, length, *owner),
    {
        let keys = keys128(&self.lock_states);
        let mut out: Vec<u128> = Vec::new();
        let mut i: usize = 0;
        while i < keys.len()
            invariant
                i <= keys.len(),
                forall|k: u128| #[trigger] keys@.contains(k) <==> self.lock_states@.contains_key(k),
                forall|k: u128| #[trigger]
                    out@.contains(k) <==> keys@.take(i as int).contains(k) && self.in_the_way(
                        k,
                        fileid,
                        lock_type,
                        offset,
                        length,
                        *owner,
                    ),
            decreases keys.len() - i,
        {
            let k: u128 = keys[i];
            assert(keys@.contains(k));
            proof {
                take_one_more(keys@, i as int);
            }
            let ghost before = out@;
            if let Some(state) = self.lock_states.get(&k) {
                if state.is_in_the_way(fileid, lock_type, offset, length, owner) {
                    out.push(k);
                    proof {
                        crate::table::push_one_more(before, k);
                    }
                }
            }
            i = i + 1;
        }
        assert(keys@.take(i as int) =~= keys@);
        out
    }

    /// Whether any state stands in the way of a lock.
    pub open spec fn blocked(
        &self,
        fileid: Fileid4,
        kind: LockType4,
        offset: u64,
        length: u64,
        owner: LockOwner4,
    ) -> bool {
        exists|k: u128| #[trigger] self.in_the_way(k, fileid, kind, offset, length, owner)
    }

    /// What asking for a lock at `now` comes to.
    pub open spec fn has_locked(
        &self,
        before: &LockManager,
        now: Duration,
        owner: LockOwner4,
        fileid: Fileid4,
        kind: LockType4,
        offset: u64,
        length: u64,
        blocking: bool,
        existing: Option<Stateid4>,
        r: Nfs4Result<Stateid4>,
    ) -> bool {
        let entry = LockEntry { fileid, lock_type: kind, offset, length, granted_time: now };
        let stats = before.stats;
        &&& self.blocked_locks == before.blocked_locks
        &&& self.boot_time == before.boot_time
        &&& if before.blocked(fileid, kind, offset, length, owner) {
            &&& fails_with(r, Nfs4Status::Denied)
            &&& self.lock_states@ == before.lock_states@
            &&& self.owner_locks == before.owner_locks
            &&& self.next_stateid == before.next_stateid
            &&& self.stats == if blocking {
                LockStats { total_blocked: stats.total_blocked.wrapping_add(1), ..stats }
            } else {
                LockStats { total_denied: stats.total_denied.wrapping_add(1), ..stats }
            }
        } else {
            match existing {
                Some(sid) => {
                    let k = key12(sid.other@);
                    &&& self.next_stateid == before.next_stateid
                    &&& self.owner_locks == before.owner_locks
                    &&& if before.lock_states@.contains_key(k)
                        && before.lock_states@[k].owner.same(&owner) {
                        let s = before.lock_states@[k];
                        let taken = s.lock_entries@.len() + 1 - with_range(
                            s.lock_entries@,
                            entry,
                        ).len();
                        &&& self.stats == LockStats {
                            total_granted: stats.total_granted.wrapping_add(1),
                            total_merges: ((stats.total_merges + taken) % 0x1_0000_0000) as u32,
                            ..stats
                        }
                        &&& r is Ok
                        &&& r->Ok_0.seqid == s.seqid.wrapping_add(1)
                        &&& r->Ok_0.other == s.stateid.other
                        &&& self.lock_states@.dom() == before.lock_states@.dom()
                        &&& self.lock_states@[k].is_with_ranges(
                            LockState { seqid: s.seqid.wrapping_add(1), ..s },
                            with_range(s.lock_entries@, entry),
                        )
                        &&& forall|j: u128| #[trigger]
                            before.lock_states@.contains_key(j) && j != k ==> self.lock_states@[j]
                                == before.lock_states@[j]
                    } else {
                        &&& fails_with(r, Nfs4Status::BadStateid)
                        &&& self.lock_states@ == before.lock_states@
                        &&& self.stats == stats
                    }
                },
                None => {
                    &&& self.stats == LockStats {
                        total_granted: stats.total_granted.wrapping_add(1),
                        ..stats
                    }
                    &&& r is Ok
                    &&& r->Ok_0.seqid == 1
                    &&& r->Ok_0.other@ == lock_other(before.boot_time, before.next_stateid)
                    &&& self.next_stateid == before.next_stateid + 1
                    &&& {
                        let k = key12(r->Ok_0.other@);
                        &&& !before.lock_states@.contains_key(k)
                        &&& self.lock_states@.dom() == before.lock_states@.dom().insert(k)
                        &&& self.lock_states@.remove(k) == before.lock_states@
                        &&& self.lock_states@[k].stateid == r->Ok_0
                        &&& self.lock_states@[k].seqid == 1
                        &&& self.lock_states@[k].owner.same(&owner)
                        &&& self.lock_states@[k].lock_entries@ == seq![entry]
                        &&& self.owner_locks@ == before.owner_locks@.insert(
                            (owner.clientid, owner.owner@),
                            k,
                        )
                    }
                },
            }
        }
    }

    /// Asks for a lock at `now`. It is granted unless another owner's state stands in the way,
    /// under the state id that is given, if the state is the owner's, or under a new one.
    pub fn lock_at(
        &mut self,
        now: Duration,
        clientid: Clientid4,
        owner: Vec<u8>,
        fileid: Fileid4,
        lock_type: LockType4,
        offset: u64,
        length: u64,
        blocking: bool,
        existing_stateid: Option<&Stateid4>,
    ) -> (r: Nfs4Result<Stateid4>)
        requires
            old(self).wf(),
            old(self).next_stateid < u32::MAX,
        ensures
            final(self).wf(),
            final(self).has_locked(
                old(self),
                now,
                (LockOwner4 { clientid, owner }),
                fileid,
                lock_type,
                offset,
                length,
                blocking,
                copied(existing_stateid),
                r,
            ),
    {
        let lock_owner = LockOwner4 { clientid, owner };
        let conflicts = self.find_conflicts(fileid, lock_type, offset, length, &lock_owner);
        proof {
            if conflicts@.len() > 0 {
                assert(conflicts@.contains(conflicts@[0]));
                assert(self.in_the_way(
                    conflicts@[0],
                    fileid,
                    lock_type,
                    offset,
                    length,
                    lock_owner,
                ));
            } else if self.blocked(fileid, lock_type, offset, length, lock_owner) {
                let k = choose|k: u128| #[trigger]
                    self.in_the_way(k, fileid, lock_type, offset, length, lock_owner);
                assert(conflicts@.contains(k));
            }
        }
        if conflicts.len() > 0 {
            if blocking {
                self.stats.total_blocked = self.stats.total_blocked.wrapping_add(1);
            } else {
                self.stats.total_denied = self.stats.total_denied.wrapping_add(1);
            }
            return failure(Nfs4Status::Denied);
        }
        let entry = LockEntry::new_at(now, fileid, lock_type, offset, length);
        match existing_stateid {
            Some(sid) => {
                let key: u128 = key_of12(&sid.other);
                let mut state = match self.lock_states.remove(&key) {
                    Some(state) => state,
                    None => {
                        assert(self.lock_states@ =~= old(self).lock_states@);
                        return failure(Nfs4Status::BadStateid);
                    },
                };
                if state.owner != lock_owner {
                    self.lock_states.insert(key, state);
                    assert(self.lock_states@ =~= old(self).lock_states@);
                    return failure(Nfs4Status::BadStateid);
                }
                let had: usize = state.lock_entries.len();
                proof {
                    merge_bounds(state.lock_entries@, entry);
                }
                state.add_lock_entry(entry);
                let taken: usize = had - (state.lock_entries.len() - 1);
                self.stats.total_merges = count_on(self.stats.total_merges, taken);
                self.stats.total_granted = self.stats.total_granted.wrapping_add(1);
                let stateid = state.update_stateid();
                self.lock_states.insert(key, state);
                proof {
                    assert(self.lock_states@.dom() =~= old(self).lock_states@.dom());
                    indexed_update(
                        old(self).lock_states@,
                        self.lock_states@,
                        self.client_locks,
                        Self::client(),
                    );
                    assert forall|k: u128| #[trigger]
                        self.lock_states@.contains_key(k) implies self.state_ok(k) by {
                        assert(old(self).state_ok(k));
                    }
                }
                Ok(stateid)
            },
            None => {
                self.stats.total_granted = self.stats.total_granted.wrapping_add(1);
                let stateid = self.generate_stateid();
                let key: u128 = key_of12(&stateid.other);
                proof {
                    serial_of_lock(old(self).boot_time, old(self).next_stateid);
                    if old(self).lock_states@.contains_key(key) {
                        assert(old(self).state_ok(key));
                        key12_injective(
                            old(self).lock_states@[key].stateid.other@,
                            stateid.other@,
                        );
                    }
                }
                let name = crate::bytes::bytes_vec(lock_owner.owner.as_slice());
                let state = LockState::new(stateid, lock_owner, entry);
                let ghost s = state;
                self.lock_states.insert(key, state);
                self.client_locks.put(clientid, key);
                self.owner_locks.insert(clientid, name, key);
                proof {
                    indexed_insert(
                        old(self).lock_states@,
                        old(self).client_locks,
                        self.client_locks,
                        Self::client(),
                        key,
                        s,
                    );
                    assert(self.lock_states@.remove(key) =~= old(self).lock_states@);
                    assert forall|k: u128| #[trigger]
                        self.lock_states@.contains_key(k) implies self.state_ok(k) by {
                        if k != key {
                            assert(old(self).state_ok(k));
                        }
                    }
                }
                Ok(stateid)
            },
        }
    }

    /// Asks for a lock.
    pub fn lock(
        &mut self,
        clientid: Clientid4,
        owner: Vec<u8>,
        fileid: Fileid4,
        lock_type: LockType4,
        offset: u64,
        length: u64,
        blocking: bool,
        existing_stateid: Option<&Stateid4>,
    ) -> (r: Nfs4Result<Stateid4>)
        requires
            old(self).wf(),
            old(self).next_stateid < u32::MAX,
        ensures
            final(self).wf(),
            exists|now: Duration| #[trigger]
                final(self).has_locked(
                    old(self),
                    now,
                    (LockOwner4 { clientid, owner }),
                    fileid,
                    lock_type,
                    offset,
                    length,
                    blocking,
                    copied(existing_stateid),
                    r,
                ),
    {
        self.lock_at(
            unix_time(),
            clientid,
            owner,
            fileid,
            lock_type,
            offset,
            length,
            blocking,
            existing_stateid,
        )
    }

    /// A state that stands in the way of a lock by a range that it has in the file, where there is
    /// one. There is none exactly where the lock would be granted.
    pub fn test_lock(
        &self,
        fileid: Fileid4,
        lock_type: LockType4,
        offset: u64,
        length: u64,
        owner: &LockOwner4,
    ) -> (r: Option<&LockState>)
        ensures
            r is Some <==> self.blocked(fileid, lock_type, offset, length, *owner),
            r matches Some(s) ==> s.bars(fileid, lock_type, offset, length, *owner)
                && self.holds_state(*s),
    {
        let conflicts = self.find_conflicts(fileid, lock_type, offset, length, owner);
        if conflicts.len() > 0 {
            let k: u128 = conflicts[0];
            assert(conflicts@.contains(k));
            assert(self.in_the_way(k, fileid, lock_type, offset, length, *owner));
            self.lock_states.get(&k)
        } else {
            proof {
                if self.blocked(fileid, lock_type, offset, length, *owner) {
                    let k = choose|k: u128| #[trigger]
                        self.in_the_way(k, fileid, lock_type, offset, length, *owner);
                    assert(conflicts@.contains(k));
                }
            }
            None
        }
    }

    /// What giving a range back at `now` comes to.
    pub open spec fn has_unlocked(
        &self,
        before: &LockManager,
        now: Duration,
        sid: Stateid4,
        offset: u64,
        length: u64,
        r: Nfs4Result<Stateid4>,
    ) -> bool {
        let k = key12(sid.other@);
        &&& self.same_rest(before)
        &&& if !before.lock_states@.contains_key(k) {
            &&& fails_with(r, Nfs4Status::BadStateid)
            &&& self.lock_states@ == before.lock_states@
            &&& self.owner_locks == before.owner_locks
            &&& self.stats == before.stats
        } else {
            let s = before.lock_states@[k];
            let rest = without_range(s.lock_entries@, offset, range_end(offset, length), now);
            &&& r is Ok
            &&& r->Ok_0.seqid == s.seqid.wrapping_add(1)
            &&& r->Ok_0.other == s.stateid.other
            &&& self.stats == LockStats {
                total_released: before.stats.total_released.wrapping_add(1),
                total_splits: ((before.stats.total_splits + splits(
                    s.lock_entries@,
                    offset,
                    range_end(offset, length),
                )) % 0x1_0000_0000) as u32,
                ..before.stats
            }
            &&& if rest.len() == 0 {
                &&& self.lock_states@ == before.lock_states@.remove(k)
                &&& self.owner_locks@ == before.owner_locks@.remove(
                    (s.owner.clientid, s.owner.owner@),
                )
            } else {
                &&& self.owner_locks == before.owner_locks
                &&& self.lock_states@.dom() == before.lock_states@.dom()
                &&& self.lock_states@[k].is_with_ranges(
                    LockState { seqid: s.seqid.wrapping_add(1), ..s },
                    rest,
                )
                &&& forall|j: u128| #[trigger]
                    before.lock_states@.contains_key(j) && j != k ==> self.lock_states@[j]
                        == before.lock_states@[j]
            }
        }
    }

    /// Gives a range back at `now`. A state without a range is forgotten.
    pub fn unlock_at(&mut self, now: Duration, stateid: &Stateid4, offset: u64, length: u64) -> (r:
        Nfs4Result<Stateid4>)
        requires
            old(self).wf(),
        ensures
            final(self).wf(),
            final(self).has_unlocked(old(self), now, *stateid, offset, length, r),
    {
        let key: u128 = key_of12(&stateid.other);
        let mut state = match self.lock_states.remove(&key) {
            Some(state) => state,
            None => {
                assert(self.lock_states@ =~= old(self).lock_states@);
                return failure(Nfs4Status::BadStateid);
            },
        };
        let split: usize = state.count_splits(offset, length);
        self.stats.total_splits = count_on(self.stats.total_splits, split);
        let empty = match state.remove_lock_range_at(now, offset, length) {
            Ok(empty) => empty,
            Err(_) => false,
        };
        let r = state.update_stateid();
        self.stats.total_released = self.stats.total_released.wrapping_add(1);
        if empty {
            self.client_locks.drop_one(state.owner.clientid, key);
            self.owner_locks.remove(state.owner.clientid, state.owner.owner.as_slice());
            proof {
                indexed_remove(
                    old(self).lock_states@,
                    old(self).client_locks,
                    self.client_locks,
                    Self::client(),
                    key,
                );
                assert forall|k: u128| #[trigger]
                    self.lock_states@.contains_key(k) implies self.state_ok(k) by {
                    assert(old(self).state_ok(k));
                }
            }
        } else {
            self.lock_states.insert(key, state);
            proof {
                assert(self.lock_states@.dom() =~= old(self).lock_states@.dom());
                indexed_update(
                    old(self).lock_states@,
                    self.lock_states@,
                    self.client_locks,
                    Self::client(),
                );
                assert forall|k: u128| #[trigger]
                    self.lock_states@.contains_key(k) implies self.state_ok(k) by {
                    assert(old(self).state_ok(k));
                }
            }
        }
        Ok(r)
    }

    /// Gives a range back.
    pub fn unlock(&mut self, stateid: &Stateid4, offset: u64, length: u64) -> (r: Nfs4Result<
        Stateid4,
    >)
        requires
            old(self).wf(),
        ensures
            final(self).wf(),
            exists|now: Duration| #[trigger]
                final(self).has_unlocked(old(self), now, *stateid, offset, length, r),
    {
        self.unlock_at(unix_time(), stateid, offset, length)
    }

    /// The state with the given id.
    pub fn get_lock_state(&self, stateid: &Stateid4) -> (r: Option<&LockState>)
        ensures
            r == if self.lock_states@.contains_key(key12(stateid.other@)) {
                Some(&self.lock_states@[key12(stateid.other@)])
            } else {
                None
            },
    {
        let key: u128 = key_of12(&stateid.other);
        self.lock_states.get(&key)
    }

    /// Forgets all lock states of a client.
    pub fn release_all_for_client(&mut self, clientid: Clientid4)
        requires
            old(self).wf(),
        ensures
            final(self).wf(),
            forall|k: u128| #[trigger]
                final(self).lock_states@.contains_key(k) <==> old(self).lock_states@.contains_key(k)
                    && old(self).lock_states@[k].owner.clientid != clientid,
            forall|k: u128| #[trigger]
                final(self).lock_states@.contains_key(k) ==> final(self).lock_states@[k] == old(
                    self,
                ).lock_states@[k],
            forall|o: (u64, Seq<u8>)| #[trigger]
                final(self).owner_locks@.contains_key(o) <==> old(self).owner_locks@.contains_key(o)
                    && o.0 != clientid,
            forall|o: (u64, Seq<u8>)| #[trigger]
                final(self).owner_locks@.contains_key(o) ==> final(self).owner_locks@[o] == old(
                    self,
                ).owner_locks@[o],
            final(self).same_rest(old(self)),
            final(self).stats == old(self).stats,
    {
        let list = self.client_locks.drop_all(clientid);
        let ghost idx = self.client_locks;
        let mut i: usize = 0;
        while i < list.len()
            invariant
                old(self).wf(),
                list@ == old(self).client_locks.of(clientid),
                i <= list.len(),
                self.client_locks == idx,
                self.same_rest(old(self)),
                self.stats == old(self).stats,
                forall|k: u128| #[trigger]
                    self.lock_states@.contains_key(k) <==> old(self).lock_states@.contains_key(k)
                        && !list@.take(i as int).contains(k),
                forall|k: u128| #[trigger]
                    self.lock_states@.contains_key(k) ==> self.lock_states@[k] == old(
                        self,
                    ).lock_states@[k],
                forall|o: (u64, Seq<u8>)| #[trigger]
                    self.owner_locks@.contains_key(o) ==> {
                        let k = self.owner_locks@[o];
                        &&& self.lock_states@.contains_key(k)
                        &&& self.lock_states@[k].owner.clientid == o.0
                        &&& self.lock_states@[k].owner.owner@ == o.1
                    },
                forall|o: (u64, Seq<u8>)| #[trigger]
                    self.owner_locks@.contains_key(o) ==> old(self).owner_locks@.contains_key(o)
                        && self.owner_locks@[o] == old(self).owner_locks@[o],
                forall|o: (u64, Seq<u8>)| #[trigger]
                    old(self).owner_locks@.contains_key(o) && o.0 != clientid
                        ==> self.owner_locks@.contains_key(o),
            decreases list.len() - i,
        {
            let k: u128 = list[i];
            proof {
                take_one_more(list@, i as int);
                assert(list@.contains(k));
            }
            if let Some(state) = self.lock_states.remove(&k) {
                self.owner_locks.remove(state.owner.clientid, state.owner.owner.as_slice());
            }
            i = i + 1;
        }
        proof {
            assert(list@.take(i as int) =~= list@);
            indexed_drop_all(
                old(self).lock_states@,
                self.lock_states@,
                old(self).client_locks,
                self.client_locks,
                Self::client(),
                clientid,
            );
            assert forall|k: u128| #[trigger]
                self.lock_states@.contains_key(k) implies self.state_ok(k) by {
                assert(old(self).state_ok(k));
            }
        }
    }

    /// All states of an owner are forgotten, and nothing else.
    pub open spec fn has_released_owner(&self, before: &LockManager, owner: LockOwner4) -> bool {
        &&& forall|k: u128| #[trigger]
            self.lock_states@.contains_key(k) <==> before.lock_states@.contains_key(k)
                && !before.lock_states@[k].owner.same(&owner)
        &&& forall|k: u128| #[trigger]
            self.lock_states@.contains_key(k) ==> self.lock_states@[k] == before.lock_states@[k]
        &&& self.owner_locks@ == before.owner_locks@.remove((owner.clientid, owner.owner@))
        &&& self.same_rest(before)
        &&& self.stats == before.stats
    }

    /// Forgets all states of an owner.
    pub fn release_all_for_owner(&mut self, owner: &LockOwner4)
        requires
            old(self).wf(),
        ensures
            final(self).wf(),
            final(self).has_released_owner(old(self), *owner),
    {
        self.owner_locks.remove(owner.clientid, owner.owner.as_slice());
        let keys = keys128(&self.lock_states);
        let mut i: usize = 0;
        while i < keys.len()
            invariant
                old(self).wf(),
                self.wf(),
                i <= keys.len(),
                forall|k: u128| #[trigger]
                    keys@.contains(k) <==> old(self).lock_states@.contains_key(k),
                forall|k: u128| #[trigger]
                    self.lock_states@.contains_key(k) <==> old(self).lock_states@.contains_key(k)
                        && !(keys@.take(i as int).contains(k) && old(
                        self,
                    ).lock_states@[k].owner.same(owner)),
                forall|k: u128| #[trigger]
                    self.lock_states@.contains_key(k) ==> self.lock_states@[k] == old(
                        self,
                    ).lock_states@[k],
                self.owner_locks@ == old(self).owner_locks@.remove((owner.clientid, owner.owner@)),
                self.same_rest(old(self)),
                self.stats == old(self).stats,
            decreases keys.len() - i,
        {
            let k: u128 = keys[i];
            let ghost mid = *self;
            proof {
                take_one_more(keys@, i as int);
                assert(keys@.contains(k));
            }
            let mut hit = false;
            if let Some(state) = self.lock_states.get(&k) {
                hit = state.owner == *owner;
            }
            if hit {
                self.lock_states.remove(&k);
                self.client_locks.drop_one(owner.clientid, k);
                proof {
                    indexed_remove(
                        mid.lock_states@,
                        mid.client_locks,
                        self.client_locks,
                        Self::client(),
                        k,
                    );
                    assert forall|j: u128| #[trigger]
                        self.lock_states@.contains_key(j) implies self.state_ok(j) by {
                        assert(mid.state_ok(j));
                    }
                }
            }
            i = i + 1;
        }
        assert(keys@.take(i as int) =~= keys@);
    }

    /// Whether a state is one of a client's that has ranges of a file.
    pub open spec fn in_file_of(&self, k: u128, clientid: Clientid4, fileid: Fileid4) -> bool {
        &&& self.lock_states@.contains_key(k)
        &&& self.lock_states@[k].owner.clientid == clientid
        &&& self.lock_states@[k].has_file(fileid)
    }

    /// What the states of a client come to that has closed a file: those that have ranges of it
    /// give these up, and go when none is left.
    pub open spec fn has_let_go(
        &self,
        before: &LockManager,
        clientid: Clientid4,
        fileid: Fileid4,
        k: u128,
    ) -> bool {
        let s = before.lock_states@[k];
        let left = elsewhere(s.lock_entries@, fileid);
        if before.in_file_of(k, clientid, fileid) {
            if left.len() == 0 {
                !self.lock_states@.contains_key(k)
            } else {
                &&& self.lock_states@.contains_key(k)
                &&& self.lock_states@[k].is_with_ranges(
                    LockState { seqid: s.seqid.wrapping_add(1), ..s },
                    left,
                )
            }
        } else {
            &&& self.lock_states@.contains_key(k) <==> before.lock_states@.contains_key(k)
            &&& self.lock_states@.contains_key(k) ==> self.lock_states@[k]
                == before.lock_states@[k]
        }
    }

    /// Whether an owner has no state of note any more once a client has closed a file: one of its
    /// states had ranges of the file, and has none left.
    pub open spec fn gives_up(
        &self,
        k: u128,
        clientid: Clientid4,
        fileid: Fileid4,
        o: (u64, Seq<u8>),
    ) -> bool {
        let s = self.lock_states@[k];
        &&& self.in_file_of(k, clientid, fileid)
        &&& elsewhere(s.lock_entries@, fileid).len() == 0
        &&& o == (s.owner.clientid, s.owner.owner@)
    }

    /// A client has given back what it had locked of a file. Each state that had ranges of the file
    /// is counted as released.
    pub open spec fn has_released_file(
        &self,
        before: &LockManager,
        clientid: Clientid4,
        fileid: Fileid4,
    ) -> bool {
        &&& forall|k: u128|
            #![trigger self.lock_states@.contains_key(k)]
            #![trigger before.lock_states@.contains_key(k)]
            self.has_let_go(before, clientid, fileid, k)
        &&& forall|o: (u64, Seq<u8>)| #[trigger]
            self.owner_locks@.contains_key(o) <==> before.owner_locks@.contains_key(o)
                && !exists|k: u128| #[trigger] before.gives_up(k, clientid, fileid, o)
        &&& forall|o: (u64, Seq<u8>)| #[trigger]
            self.owner_locks@.contains_key(o) ==> self.owner_locks@[o] == before.owner_locks@[o]
        &&& self.same_rest(before)
        &&& self.stats == LockStats {
            total_released: ((before.stats.total_released + Set::new(
                |k: u128| before.in_file_of(k, clientid, fileid),
            ).len()) % 0x1_0000_0000) as u32,
            ..before.stats
        }
    }

    /// Takes the ranges of a file out of a state. A state without a range is forgotten.
    fn leave_file(&mut self, key: u128, fileid: Fileid4)
        requires
            old(self).wf(),
            old(self).lock_states@.contains_key(key),
        ensures
            final(self).wf(),
            final(self).same_rest(old(self)),
            final(self).stats == (LockStats {
                total_released: old(self).stats.total_released.wrapping_add(1),
                ..old(self).stats
            }),
            forall|j: u128|
                #![trigger final(self).lock_states@.contains_key(j)]
                #![trigger old(self).lock_states@.contains_key(j)]
                j != key ==> (final(self).lock_states@.contains_key(j) <==> old(
                    self,
                ).lock_states@.contains_key(j)) && (final(self).lock_states@.contains_key(j)
                    ==> final(self).lock_states@[j] == old(self).lock_states@[j]),
            ({
                let s = old(self).lock_states@[key];
                let left = elsewhere(s.lock_entries@, fileid);
                if left.len() == 0 {
                    &&& !final(self).lock_states@.contains_key(key)
                    &&& final(self).owner_locks@ == old(self).owner_locks@.remove(
                        (s.owner.clientid, s.owner.owner@),
                    )
                } else {
                    &&& final(self).lock_states@.contains_key(key)
                    &&& final(self).lock_states@[key].is_with_ranges(
                        LockState { seqid: s.seqid.wrapping_add(1), ..s },
                        left,
                    )
                    &&& final(self).owner_locks == old(self).owner_locks
                }
            }),
    {
        let mut state = match self.lock_states.remove(&key) {
            Some(state) => state,
            None => {
                return ;
            },
        };
        let empty = state.remove_file(fileid);
        let _ = state.update_stateid();
        self.stats.total_released = self.stats.total_released.wrapping_add(1);
        if empty {
            self.client_locks.drop_one(state.owner.clientid, key);
            self.owner_locks.remove(state.owner.clientid, state.owner.owner.as_slice());
            proof {
                indexed_remove(
                    old(self).lock_states@,
                    old(self).client_locks,
                    self.client_locks,
                    Self::client(),
                    key,
                );
                assert forall|k: u128| #[trigger]
                    self.lock_states@.contains_key(k) implies self.state_ok(k) by {
                    assert(old(self).state_ok(k));
                }
            }
        } else {
            self.lock_states.insert(key, state);
            proof {
                assert(self.lock_states@.dom() =~= old(self).lock_states@.dom());
                indexed_update(
                    old(self).lock_states@,
                    self.lock_states@,
                    self.client_locks,
                    Self::client(),
                );
                assert forall|k: u128| #[trigger]
                    self.lock_states@.contains_key(k) implies self.state_ok(k) by {
                    assert(old(self).state_ok(k));
                }
            }
        }
    }

    /// Gives back what a client has locked of a file.
    pub fn release_file(&mut self, clientid: Clientid4, fileid: Fileid4)
        requires
            old(self).wf(),
        ensures
            final(self).wf(),
            final(self).has_released_file(old(self), clientid, fileid),
    {
        let keys = keys128(&self.lock_states);
        let ghost before = *self;
        assert forall|j: int| 0 <= j < keys@.len() implies before.lock_states@.contains_key(
            #[trigger] keys@[j],
        ) by {
            assert(keys@.contains(keys@[j]));
        }
        let ghost mut hits: Set<u128> = Set::empty();
        let mut i: usize = 0;
        while i < keys.len()
            invariant
                i <= keys@.len(),
                keys@.no_duplicates(),
                forall|k: u128| #[trigger]
                    keys@.contains(k) <==> before.lock_states@.contains_key(k),
                forall|j: int|
                    0 <= j < keys@.len() ==> before.lock_states@.contains_key(#[trigger] keys@[j]),
                self.wf(),
                before.wf(),
                self.same_rest(&before),
                hits.finite(),
                forall|k: u128| #[trigger]
                    hits.contains(k) ==> before.in_file_of(k, clientid, fileid),
                forall|j: int|
                    0 <= j < i && before.in_file_of(#[trigger] keys@[j], clientid, fileid)
                        ==> hits.contains(keys@[j]),
                forall|j: int| i <= j < keys@.len() ==> !hits.contains(#[trigger] keys@[j]),
                self.stats == (LockStats {
                    total_released: ((before.stats.total_released + hits.len())
                        % 0x1_0000_0000) as u32,
                    ..before.stats
                }),
                forall|o: (u64, Seq<u8>)| #[trigger]
                    self.owner_locks@.contains_key(o) ==> before.owner_locks@.contains_key(o)
                        && self.owner_locks@[o] == before.owner_locks@[o],
                forall|o: (u64, Seq<u8>), j: int|
                    #![trigger self.owner_locks@.contains_key(o), keys@[j]]
                    0 <= j < i && before.gives_up(keys@[j], clientid, fileid, o)
                        ==> !self.owner_locks@.contains_key(o),
                forall|o: (u64, Seq<u8>)| #[trigger]
                    before.owner_locks@.contains_key(o) && !(exists|k: u128| #[trigger]
                        before.gives_up(k, clientid, fileid, o))
                        ==> self.owner_locks@.contains_key(o),
                forall|k: u128| #[trigger]
                    self.lock_states@.contains_key(k) ==> before.lock_states@.contains_key(k),
                forall|j: int|
                    0 <= j < i ==> self.has_let_go(
                        &before,
                        clientid,
                        fileid,
                        #[trigger] keys@[j],
                    ),
                forall|j: int|
                    i <= j < keys@.len() ==> self.lock_states@.contains_key(#[trigger] keys@[j])
                        && self.lock_states@[keys@[j]] == before.lock_states@[keys@[j]],
            decreases keys@.len() - i,
        {
            let k: u128 = keys[i];
            let ghost mid = *self;
            let mut hit = false;
            if let Some(s) = self.lock_states.get(&k) {
                hit = s.owner.clientid == clientid && s.in_file(fileid);
            }
            if hit {
                self.leave_file(k, fileid);
                proof {
                    assert(before.in_file_of(k, clientid, fileid));
                    assert(!hits.contains(k));
                    let s = before.lock_states@[k];
                    let o = (s.owner.clientid, s.owner.owner@);
                    assert(elsewhere(s.lock_entries@, fileid).len() == 0 ==> before.gives_up(
                        k,
                        clientid,
                        fileid,
                        o,
                    ));
                    hits = hits.insert(k);
                }
            }
            proof {
                assert forall|j: int| 0 <= j < keys@.len() && j != i implies (
                self.lock_states@.contains_key(#[trigger] keys@[j])
                    <==> mid.lock_states@.contains_key(keys@[j])) && (
                self.lock_states@.contains_key(keys@[j]) ==> self.lock_states@[keys@[j]]
                    == mid.lock_states@[keys@[j]]) by {
                    assert(keys@[j] != k);
                }
                assert(self.has_let_go(&before, clientid, fileid, k));
                assert forall|j: int| 0 <= j < i implies self.has_let_go(
                    &before,
                    clientid,
                    fileid,
                    #[trigger] keys@[j],
                ) by {
                    assert(mid.has_let_go(&before, clientid, fileid, keys@[j]));
                }
            }
            i += 1;
        }
        proof {
            assert forall|k: u128| before.in_file_of(k, clientid, fileid) implies hits.contains(
                k,
            ) by {
                assert(keys@.contains(k));
                let j = choose|j: int| 0 <= j < keys@.len() && keys@[j] == k;
                assert(before.in_file_of(keys@[j], clientid, fileid));
            }
            assert(hits =~= Set::new(|k: u128| old(self).in_file_of(k, clientid, fileid)));
            assert forall|o: (u64, Seq<u8>)| #[trigger]
                self.owner_locks@.contains_key(o) implies !exists|k: u128| #[trigger]
                before.gives_up(k, clientid, fileid, o) by {
                if exists|k: u128| #[trigger] before.gives_up(k, clientid, fileid, o) {
                    let k = choose|k: u128| #[trigger] before.gives_up(k, clientid, fileid, o);
                    assert(keys@.contains(k));
                    let j = choose|j: int| 0 <= j < keys@.len() && keys@[j] == k;
                    assert(before.gives_up(keys@[j], clientid, fileid, o));
                }
            }
            assert forall|k: u128|
                #![trigger self.lock_states@.contains_key(k)]
                #![trigger before.lock_states@.contains_key(k)]
                self.has_let_go(&before, clientid, fileid, k) by {
                if before.lock_states@.contains_key(k) {
                    assert(keys@.contains(k));
                    let j = choose|j: int| 0 <= j < keys@.len() && keys@[j] == k;
                    assert(self.has_let_go(&before, clientid, fileid, keys@[j]));
                }
            }
        }
    }

    /// Whether the state is among the lock states.
    pub open spec fn holds_state(&self, s: LockState) -> bool {
        exists|k: u128| #[trigger] self.lock_states@.contains_key(k) && self.lock_states@[k] == s
    }

    /// Whether `list` holds the lock states under `keys`, which are those of all of them, each
    /// once.
    pub open spec fn lists(&self, keys: Seq<u128>, list: Seq<&LockState>) -> bool {
        &&& keys.no_duplicates()
        &&& keys.len() == list.len()
        &&& forall|k: u128| #[trigger] keys.contains(k) <==> self.lock_states@.contains_key(k)
        &&& forall|i: int|
            0 <= i < list.len() ==> *(#[trigger] list[i]) == self.lock_states@[keys[i]]
    }

    /// All lock states, each once.
    pub fn export_locks(&self) -> (r: Vec<&LockState>)
        ensures
            r@.len() == self.lock_states@.dom().len(),
            exists|keys: Seq<u128>| #[trigger] self.lists(keys, r@),
            forall|i: int|
                0 <= i < r@.len() ==> self.holds_state(*(#[trigger] r@[i])),
            forall|k: u128| #[trigger]
                self.lock_states@.contains_key(k) ==> exists|i: int|
                    0 <= i < r@.len() && self.lock_states@[k] == *(#[trigger] r@[i]),
    {
        let keys = keys128(&self.lock_states);
        let mut out: Vec<&LockState> = Vec::new();
        let mut i: usize = 0;
        while i < keys.len()
            invariant
                i <= keys.len(),
                forall|k: u128| #[trigger] keys@.contains(k) <==> self.lock_states@.contains_key(k),
                out@.len() == i,
                forall|j: int|
                    0 <= j < i ==> self.lock_states@.contains_key(#[trigger] keys@[j]),
                forall|j: int|
                    0 <= j < i ==> *(#[trigger] out@[j]) == self.lock_states@[keys@[j]],
            decreases keys.len() - i,
        {
            let k: u128 = keys[i];
            assert(keys@.contains(k));
            assert(self.lock_states@.contains_key(keys@[i as int]));
            if let Some(state) = self.lock_states.get(&k) {
                out.push(state);
            }
            i = i + 1;
        }
        assert forall|k: u128| #[trigger] self.lock_states@.contains_key(k) implies exists|i: int|
            0 <= i < out@.len() && self.lock_states@[k] == *(#[trigger] out@[i]) by {
            assert(keys@.contains(k));
            let j = choose|j: int| 0 <= j < keys@.len() && #[trigger] keys@[j] == k;
            assert(self.lock_states@[k] == *out@[j]);
        }
        assert forall|i: int| 0 <= i < out@.len() implies self.holds_state(
            *(#[trigger] out@[i]),
        ) by {
            assert(self.lock_states@.contains_key(keys@[i]));
        }
        assert(self.lists(keys@, out@));
        out
    }
}

// ---------------------------------------------------------------------------
// Laws of all locks
// ---------------------------------------------------------------------------

/// Two ranges of different owners that cannot both be held.
pub open spec fn clash(a: LockEntry, b: LockEntry) -> bool {
    &&& a.fileid == b.fileid
    &&& a.meets(b.offset, b.length)
    &&& a.lock_type.writes() || b.lock_type.writes()
}

/// No two owners hold ranges that cannot both be held.
pub open spec fn exclusive(m: Map<u128, LockState>) -> bool {
    forall|k: u128, j: u128, a: int, b: int|
        m.contains_key(k) && m.contains_key(j) && !m[k].owner.same(&m[j].owner) && 0 <= a
            < m[k].lock_entries@.len() && 0 <= b < m[j].lock_entries@.len() ==> !clash(
            #[trigger] m[k].lock_entries@[a],
            #[trigger] m[j].lock_entries@[b],
        )
}

/// A lock is granted only where no other owner holds a range of the file that cannot be held
/// together with it.
pub proof fn law_granted_lock_clashes_with_nothing(
    before: LockManager,
    after: LockManager,
    now: Duration,
    owner: LockOwner4,
    fileid: Fileid4,
    kind: LockType4,
    offset: u64,
    length: u64,
    blocking: bool,
    existing: Option<Stateid4>,
    r: Nfs4Result<Stateid4>,
    k: u128,
    a: int,
)
    requires
        after.has_locked(
            &before,
            now,
            owner,
            fileid,
            kind,
            offset,
            length,
            blocking,
            existing,
            r,
        ),
        r is Ok,
        before.lock_states@.contains_key(k),
        !before.lock_states@[k].owner.same(&owner),
        0 <= a < before.lock_states@[k].lock_entries@.len(),
    ensures
        !clash(
            before.lock_states@[k].lock_entries@[a],
            (LockEntry { fileid, lock_type: kind, offset, length, granted_time: now }),
        ),
{
    let e = before.lock_states@[k].lock_entries@[a];
    if clash(e, LockEntry { fileid, lock_type: kind, offset, length, granted_time: now }) {
        assert(before.lock_states@[k].lock_entries@[a].fileid == fileid);
        assert(before.lock_states@[k].bars(fileid, kind, offset, length, owner));
        assert(before.in_the_way(k, fileid, kind, offset, length, owner));
    }
}

/// Where no two owners hold ranges that cannot both be held, that stays so when a lock is granted
/// under a new state id.
pub proof fn law_new_lock_keeps_locks_exclusive(
    before: LockManager,
    after: LockManager,
    now: Duration,
    owner: LockOwner4,
    fileid: Fileid4,
    kind: LockType4,
    offset: u64,
    length: u64,
    blocking: bool,
    r: Nfs4Result<Stateid4>,
)
    requires
        exclusive(before.lock_states@),
        after.has_locked(&before, now, owner, fileid, kind, offset, length, blocking, None, r),
    ensures
        exclusive(after.lock_states@),
{
    let m = before.lock_states@;
    let n = after.lock_states@;
    if r is Ok {
        let key = key12(r->Ok_0.other@);
        let entry = LockEntry { fileid, lock_type: kind, offset, length, granted_time: now };
        assert forall|j: u128| #[trigger] m.contains_key(j) implies n.contains_key(j) && n[j]
            == m[j] by {
            assert(n.remove(key).contains_key(j));
        }
        assert forall|k: u128, j: u128, a: int, b: int|
            n.contains_key(k) && n.contains_key(j) && !n[k].owner.same(&n[j].owner) && 0 <= a
                < n[k].lock_entries@.len() && 0 <= b < n[j].lock_entries@.len() implies !clash(
            #[trigger] n[k].lock_entries@[a],
            #[trigger] n[j].lock_entries@[b],
        ) by {
            assert(n.dom().contains(k) && n.dom().contains(j));
            if k != key && j != key {
                assert(m.contains_key(k) && m.contains_key(j));
                assert(!clash(m[k].lock_entries@[a], m[j].lock_entries@[b]));
            } else if k == key && j != key {
                assert(m.contains_key(j));
                law_granted_lock_clashes_with_nothing(
                    before,
                    after,
                    now,
                    owner,
                    fileid,
                    kind,
                    offset,
                    length,
                    blocking,
                    None,
                    r,
                    j,
                    b,
                );
            } else if k != key && j == key {
                assert(m.contains_key(k));
                law_granted_lock_clashes_with_nothing(
                    before,
                    after,
                    now,
                    owner,
                    fileid,
                    kind,
                    offset,
                    length,
                    blocking,
                    None,
                    r,
                    k,
                    a,
                );
            }
        }
    }
}

proof fn kept_was_there(s: Seq<LockEntry>, new: LockEntry, i: int) -> (j: int)
    requires
        0 <= i < merge(s, new).kept.len(),
    ensures
        0 <= j < s.len(),
        s[j] == merge(s, new).kept[i],
    decreases s.len(),
{
    let m = merge(s.drop_last(), new);
    if i < m.kept.len() {
        kept_was_there(s.drop_last(), new, i)
    } else {
        s.len() - 1
    }
}

/// Where no two owners hold ranges that cannot both be held, that stays so when a lock is granted
/// under a state id that the owner has.
pub proof fn law_longer_lock_keeps_locks_exclusive(
    before: LockManager,
    after: LockManager,
    now: Duration,
    owner: LockOwner4,
    fileid: Fileid4,
    kind: LockType4,
    offset: u64,
    length: u64,
    blocking: bool,
    sid: Stateid4,
    r: Nfs4Result<Stateid4>,
)
    requires
        exclusive(before.lock_states@),
        after.has_locked(
            &before,
            now,
            owner,
            fileid,
            kind,
            offset,
            length,
            blocking,
            Some(sid),
            r,
        ),
    ensures
        exclusive(after.lock_states@),
{
    let m = before.lock_states@;
    let n = after.lock_states@;
    let key = key12(sid.other@);
    let s = m[key].lock_entries@;
    let new = LockEntry { fileid, lock_type: kind, offset, length, granted_time: now };
    if r is Ok {
        assert forall|a: int, j: u128, b: int|
            m.contains_key(j) && !m[j].owner.same(&owner) && 0 <= a < with_range(s, new).len() && 0
                <= b < m[j].lock_entries@.len() implies !clash(
            #[trigger] with_range(s, new)[a],
            #[trigger] m[j].lock_entries@[b],
        ) by {
            let e = with_range(s, new)[a];
            let f = m[j].lock_entries@[b];
            if a < with_range(s, new).len() - 1 {
                let i = kept_was_there(s, new, a);
                assert(e == m[key].lock_entries@[i]);
                assert(!clash(m[key].lock_entries@[i], m[j].lock_entries@[b]));
            } else if clash(e, f) {
                let x = if e.offset < f.offset {
                    f.offset
                } else {
                    e.offset
                };
                assert(with_range(s, new)[a].covers(x) && f.covers(x));
                assert(holds(with_range(s, new), fileid, kind, x));
                law_adding_locks_exactly_the_range(s, new, fileid, kind, x);
                if new.covers(x) {
                    law_granted_lock_clashes_with_nothing(
                        before,
                        after,
                        now,
                        owner,
                        fileid,
                        kind,
                        offset,
                        length,
                        blocking,
                        Some(sid),
                        r,
                        j,
                        b,
                    );
                } else {
                    let i = choose|i: int|
                        0 <= i < s.len() && (#[trigger] s[i]).fileid == fileid && s[i].lock_type
                            == kind && s[i].covers(x);
                    assert(!clash(m[key].lock_entries@[i], m[j].lock_entries@[b]));
                }
            }
        }
        assert forall|k: u128, j: u128, a: int, b: int|
            n.contains_key(k) && n.contains_key(j) && !n[k].owner.same(&n[j].owner) && 0 <= a
                < n[k].lock_entries@.len() && 0 <= b < n[j].lock_entries@.len() implies !clash(
            #[trigger] n[k].lock_entries@[a],
            #[trigger] n[j].lock_entries@[b],
        ) by {
            assert(n.dom().contains(k) && n.dom().contains(j));
            assert(m.contains_key(k) && m.contains_key(j));
            if k == key && j != key {
                assert(!clash(with_range(s, new)[a], m[j].lock_entries@[b]));
            } else if k != key && j == key {
                assert(!clash(with_range(s, new)[b], m[k].lock_entries@[a]));
            } else if k != key {
                assert(!clash(m[k].lock_entries@[a], m[j].lock_entries@[b]));
            }
        }
    }
}

/// Giving a range back never makes two owners hold ranges that cannot both be held.
pub proof fn law_unlock_keeps_locks_exclusive(
    before: LockManager,
    after: LockManager,
    now: Duration,
    sid: Stateid4,
    offset: u64,
    length: u64,
    r: Nfs4Result<Stateid4>,
)
    requires
        exclusive(before.lock_states@),
        after.has_unlocked(&before, now, sid, offset, length, r),
    ensures
        exclusive(after.lock_states@),
{
    let m = before.lock_states@;
    let n = after.lock_states@;
    let key = key12(sid.other@);
    let end = range_end(offset, length);
    assert forall|k: u128, j: u128, a: int, b: int|
        n.contains_key(k) && n.contains_key(j) && !n[k].owner.same(&n[j].owner) && 0 <= a
            < n[k].lock_entries@.len() && 0 <= b < n[j].lock_entries@.len() implies !clash(
        #[trigger] n[k].lock_entries@[a],
        #[trigger] n[j].lock_entries@[b],
    ) by {
        assert(n.dom().contains(k) && n.dom().contains(j));
        assert(m.contains_key(k) && m.contains_key(j));
        let a0 = if k == key {
            rest_lies_inside(m[k].lock_entries@, offset, end, now, a)
        } else {
            a
        };
        let b0 = if j == key {
            rest_lies_inside(m[j].lock_entries@, offset, end, now, b)
        } else {
            b
        };
        assert(!clash(m[k].lock_entries@[a0], m[j].lock_entries@[b0]));
    }
}

} // verus!
