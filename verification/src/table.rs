//! Walking hash tables, and lists without repetition.

use std::collections::HashMap;
use vstd::prelude::*;

verus! {

/// The keys of a table, each once, in no particular order.
pub fn keys64<V>(m: &HashMap<u64, V>) -> (r: Vec<u64>)
    ensures
        r@.no_duplicates(),
        forall|k: u64| #[trigger] r@.contains(k) <==> m@.contains_key(k),
        r@.len() == m@.dom().len(),
{
    broadcast use vstd::std_specs::hash::group_hash_axioms;

    let ghost ks = vstd::std_specs::iter::IteratorSpec::remaining(
        &vstd::std_specs::hash::spec_keys_iter(m),
    );
    let mut out: Vec<u64> = Vec::new();
    for k in it: m.keys()
        invariant
            it.seq() == ks,
            out@.len() == it.index(),
            forall|i: int| 0 <= i < out@.len() ==> out@[i] == *ks[i],
    {
        out.push(*k);
    }
    proof {
        assert(out@ =~= ks.unref());
        assert forall|k: u64| #[trigger] out@.contains(k) <==> m@.contains_key(k) by {
            assert(out@.to_set().contains(k) <==> m@.dom().contains(k));
        }
    }
    out
}

/// The keys of a table, each once, in no particular order.
pub fn keys128<V>(m: &HashMap<u128, V>) -> (r: Vec<u128>)
    ensures
        r@.no_duplicates(),
        forall|k: u128| #[trigger] r@.contains(k) <==> m@.contains_key(k),
        r@.len() == m@.dom().len(),
{
    broadcast use vstd::std_specs::hash::group_hash_axioms;

    let ghost ks = vstd::std_specs::iter::IteratorSpec::remaining(
        &vstd::std_specs::hash::spec_keys_iter(m),
    );
    let mut out: Vec<u128> = Vec::new();
    for k in it: m.keys()
        invariant
            it.seq() == ks,
            out@.len() == it.index(),
            forall|i: int| 0 <= i < out@.len() ==> out@[i] == *ks[i],
    {
        out.push(*k);
    }
    proof {
        assert(out@ =~= ks.unref());
        assert forall|k: u128| #[trigger] out@.contains(k) <==> m@.contains_key(k) by {
            assert(out@.to_set().contains(k) <==> m@.dom().contains(k));
        }
    }
    out
}

/// What is left of a list when `x` is taken out.
pub open spec fn without(v: Seq<u128>, x: u128) -> Seq<u128>
    decreases v.len(),
{
    if v.len() == 0 {
        Seq::empty()
    } else if v.last() == x {
        without(v.drop_last(), x)
    } else {
        without(v.drop_last(), x).push(v.last())
    }
}

/// Everything but `x` stays in a list that `x` is taken out of, and nothing is repeated that was
/// not.
pub proof fn without_keeps(v: Seq<u128>, x: u128)
    ensures
        forall|y: u128| #[trigger] without(v, x).contains(y) <==> v.contains(y) && y != x,
        v.no_duplicates() ==> without(v, x).no_duplicates(),
    decreases v.len(),
{
    if v.len() > 0 {
        let init = v.drop_last();
        without_keeps(init, x);
        let w = without(v, x);
        assert forall|y: u128| #[trigger] w.contains(y) <==> v.contains(y) && y != x by {
            if w.contains(y) {
                let i = choose|i: int| 0 <= i < w.len() && w[i] == y;
                if v.last() != x && i == w.len() - 1 {
                    assert(v[v.len() - 1] == y);
                } else {
                    assert(without(init, x)[i] == y);
                    assert(without(init, x).contains(y));
                    let j = choose|j: int| 0 <= j < init.len() && init[j] == y;
                    assert(v[j] == y);
                }
            }
            if v.contains(y) && y != x {
                let j = choose|j: int| 0 <= j < v.len() && v[j] == y;
                if j == v.len() - 1 {
                    assert(w[w.len() - 1] == y);
                } else {
                    assert(init[j] == y);
                    assert(without(init, x).contains(y));
                    let i = choose|i: int|
                        0 <= i < without(init, x).len() && without(init, x)[i] == y;
                    assert(w[i] == y);
                }
            }
        }
        if v.no_duplicates() {
            assert(init.no_duplicates());
            let u = without(init, x);
            if v.last() != x {
                assert(!u.contains(v.last())) by {
                    if u.contains(v.last()) {
                        let j = choose|j: int| 0 <= j < init.len() && init[j] == v.last();
                        assert(v[j] == v[v.len() - 1]);
                    }
                }
                assert(w.no_duplicates());
            }
        }
    }
}

/// One more item at the end of a part of a list.
pub proof fn take_one_more<T>(v: Seq<T>, i: int)
    requires
        0 <= i < v.len(),
    ensures
        v.take(i + 1) == v.take(i).push(v[i]),
        forall|x: T| #[trigger] v.take(i + 1).contains(x) <==> (v.take(i).contains(x) || x == v[i]),
{
    let a = v.take(i);
    let b = v.take(i + 1);
    assert(b =~= a.push(v[i]));
    assert forall|x: T| #[trigger] b.contains(x) <==> (a.contains(x) || x == v[i]) by {
        if b.contains(x) {
            let n = choose|n: int| 0 <= n < b.len() && #[trigger] b[n] == x;
            if n < i {
                assert(a[n] == x);
            }
        }
        if a.contains(x) {
            let n = choose|n: int| 0 <= n < a.len() && #[trigger] a[n] == x;
            assert(b[n] == x);
        }
        if x == v[i] {
            assert(b[i] == x);
        }
    }
}

/// What is in a list after one more item was put at its end.
pub proof fn push_one_more<T>(v: Seq<T>, x: T)
    ensures
        forall|y: T| #[trigger] v.push(x).contains(y) <==> (v.contains(y) || y == x),
        v.no_duplicates() && !v.contains(x) ==> v.push(x).no_duplicates(),
{
    let w = v.push(x);
    assert(w.take(v.len() as int) =~= v);
    assert(w.take(v.len() as int + 1) =~= w);
    take_one_more(w, v.len() as int);
}

/// Takes `x` out of a list.
pub fn take_out(v: &Vec<u128>, x: u128) -> (r: Vec<u128>)
    ensures
        r@ == without(v@, x),
{
    let mut out: Vec<u128> = Vec::new();
    let mut i: usize = 0;
    while i < v.len()
        invariant
            i <= v.len(),
            out@ == without(v@.take(i as int), x),
        decreases v.len() - i,
    {
        assert(v@.take(i + 1).drop_last() =~= v@.take(i as int));
        if v[i] != x {
            out.push(v[i]);
        }
        i = i + 1;
    }
    assert(v@.take(i as int) =~= v@);
    out
}

/// Whether `x` is in the list.
pub fn listed(v: &Vec<u128>, x: u128) -> (r: bool)
    ensures
        r == v@.contains(x),
{
    let mut i: usize = 0;
    while i < v.len()
        invariant
            i <= v.len(),
            forall|j: int| 0 <= j < i ==> v@[j] != x,
        decreases v.len() - i,
    {
        if v[i] == x {
            assert(v@.contains(x));
            return true;
        }
        i = i + 1;
    }
    false
}

// ---------------------------------------------------------------------------
// What belongs to whom
// ---------------------------------------------------------------------------

/// For each owner, which may be a client or a file, the keys of what belongs to it, oldest first.
pub struct KeyIndex {
    pub lists: HashMap<u64, Vec<u128>>,
}

impl KeyIndex {
    /// What belongs to an owner, oldest first.
    pub open spec fn of(&self, c: u64) -> Seq<u128> {
        if self.lists@.contains_key(c) {
            self.lists@[c]@
        } else {
            Seq::empty()
        }
    }

    /// `self` is `before` but for what belongs to `c`.
    pub open spec fn same_but(&self, before: &KeyIndex, c: u64) -> bool {
        forall|d: u64| d != c ==> #[trigger] self.of(d) == before.of(d)
    }

    /// Nothing belongs to anyone.
    pub fn new() -> (r: Self)
        ensures
            forall|c: u64| #[trigger] r.of(c) == Seq::<u128>::empty(),
            r.lists@ == Map::<u64, Vec<u128>>::empty(),
    {
        broadcast use vstd::std_specs::hash::group_hash_axioms;

        KeyIndex { lists: HashMap::new() }
    }

    /// `k` belongs to `c` from now on.
    pub fn put(&mut self, c: u64, k: u128)
        ensures
            final(self).of(c) == old(self).of(c).push(k),
            final(self).same_but(old(self), c),
            final(self).lists@.dom() == old(self).lists@.dom().insert(c),
    {
        broadcast use vstd::std_specs::hash::group_hash_axioms;

        let mut list = match self.lists.remove(&c) {
            Some(list) => list,
            None => Vec::new(),
        };
        list.push(k);
        self.lists.insert(c, list);
        assert(self.lists@.dom() =~= old(self).lists@.dom().insert(c));
    }

    /// `k` does not belong to `c` any more.
    pub fn drop_one(&mut self, c: u64, k: u128)
        ensures
            final(self).of(c) == without(old(self).of(c), k),
            final(self).same_but(old(self), c),
            final(self).lists@.dom() == old(self).lists@.dom(),
    {
        broadcast use vstd::std_specs::hash::group_hash_axioms;

        if let Some(list) = self.lists.remove(&c) {
            let rest = take_out(&list, k);
            self.lists.insert(c, rest);
        }
        assert(self.lists@.dom() =~= old(self).lists@.dom());
    }

    /// Nothing belongs to `c` any more; what did is handed out.
    pub fn drop_all(&mut self, c: u64) -> (r: Vec<u128>)
        ensures
            r@ == old(self).of(c),
            final(self).of(c) == Seq::<u128>::empty(),
            final(self).same_but(old(self), c),
            final(self).lists@.dom() == old(self).lists@.dom().remove(c),
    {
        broadcast use vstd::std_specs::hash::group_hash_axioms;

        let r = match self.lists.remove(&c) {
            Some(list) => list,
            None => Vec::new(),
        };
        assert(self.lists@.dom() =~= old(self).lists@.dom().remove(c));
        r
    }

    /// What belongs to an owner.
    pub fn get(&self, c: u64) -> (r: Option<&Vec<u128>>)
        ensures
            r is Some <==> self.lists@.contains_key(c),
            match r {
                Some(list) => list@ == self.of(c),
                None => self.of(c) == Seq::<u128>::empty(),
            },
    {
        broadcast use vstd::std_specs::hash::group_hash_axioms;

        self.lists.get(&c)
    }
}

/// Everything in `m` is listed with the owner it belongs to, once, and nothing else is listed.
pub open spec fn indexed<S>(m: Map<u128, S>, idx: KeyIndex, client: spec_fn(S) -> u64) -> bool {
    &&& forall|c: u64| #[trigger] idx.of(c).no_duplicates()
    &&& forall|c: u64, k: u128| #[trigger]
        idx.of(c).contains(k) <==> m.contains_key(k) && client(m[k]) == c
}

/// An index stays right when something new is put in.
pub proof fn indexed_insert<S>(
    m: Map<u128, S>,
    idx: KeyIndex,
    idx2: KeyIndex,
    client: spec_fn(S) -> u64,
    k: u128,
    s: S,
)
    requires
        indexed(m, idx, client),
        !m.contains_key(k),
        idx2.of(client(s)) == idx.of(client(s)).push(k),
        idx2.same_but(&idx, client(s)),
    ensures
        indexed(m.insert(k, s), idx2, client),
{
    let c0 = client(s);
    push_one_more(idx.of(c0), k);
    assert(!idx.of(c0).contains(k));
    assert forall|c: u64| #[trigger] idx2.of(c).no_duplicates() by {
        assert(idx.of(c).no_duplicates());
        if c != c0 {
            assert(idx2.of(c) == idx.of(c));
        }
    }
    assert forall|c: u64, j: u128| #[trigger] idx2.of(c).contains(j) <==> m.insert(
        k,
        s,
    ).contains_key(j) && client(m.insert(k, s)[j]) == c by {
        assert(idx.of(c).contains(j) <==> m.contains_key(j) && client(m[j]) == c);
        if c != c0 {
            assert(idx2.of(c) == idx.of(c));
        }
    }
}

/// An index stays right when something is taken out.
pub proof fn indexed_remove<S>(
    m: Map<u128, S>,
    idx: KeyIndex,
    idx2: KeyIndex,
    client: spec_fn(S) -> u64,
    k: u128,
)
    requires
        indexed(m, idx, client),
        m.contains_key(k),
        idx2.of(client(m[k])) == without(idx.of(client(m[k])), k),
        idx2.same_but(&idx, client(m[k])),
    ensures
        indexed(m.remove(k), idx2, client),
{
    let c0 = client(m[k]);
    without_keeps(idx.of(c0), k);
    assert forall|c: u64| #[trigger] idx2.of(c).no_duplicates() by {
        assert(idx.of(c).no_duplicates());
        if c != c0 {
            assert(idx2.of(c) == idx.of(c));
        }
    }
    assert forall|c: u64, j: u128| #[trigger] idx2.of(c).contains(j) <==> m.remove(k).contains_key(
        j,
    ) && client(m.remove(k)[j]) == c by {
        assert(idx.of(c).contains(j) <==> m.contains_key(j) && client(m[j]) == c);
        if c != c0 {
            assert(idx2.of(c) == idx.of(c));
        }
    }
}

/// An index stays right when nothing changes hands.
pub proof fn indexed_update<S>(
    m: Map<u128, S>,
    m2: Map<u128, S>,
    idx: KeyIndex,
    client: spec_fn(S) -> u64,
)
    requires
        indexed(m, idx, client),
        m2.dom() == m.dom(),
        forall|k: u128| #[trigger] m.contains_key(k) ==> client(m2[k]) == client(m[k]),
    ensures
        indexed(m2, idx, client),
{
    assert forall|c: u64, j: u128| #[trigger] idx.of(c).contains(j) <==> m2.contains_key(j)
        && client(m2[j]) == c by {
        assert(m2.contains_key(j) == m2.dom().contains(j));
        assert(m.contains_key(j) == m.dom().contains(j));
    }
}

/// An index stays right when everything that belongs to an owner is taken out.
pub proof fn indexed_drop_all<S>(
    m: Map<u128, S>,
    m2: Map<u128, S>,
    idx: KeyIndex,
    idx2: KeyIndex,
    client: spec_fn(S) -> u64,
    c0: u64,
)
    requires
        indexed(m, idx, client),
        idx2.of(c0) == Seq::<u128>::empty(),
        idx2.same_but(&idx, c0),
        forall|k: u128| #[trigger]
            m2.contains_key(k) <==> m.contains_key(k) && !idx.of(c0).contains(k),
        forall|k: u128| #[trigger] m2.contains_key(k) ==> m2[k] == m[k],
    ensures
        indexed(m2, idx2, client),
        forall|k: u128| #[trigger]
            m2.contains_key(k) <==> m.contains_key(k) && client(m[k]) != c0,
{
    assert forall|c: u64| #[trigger] idx2.of(c).no_duplicates() by {
        assert(idx.of(c).no_duplicates());
        if c != c0 {
            assert(idx2.of(c) == idx.of(c));
        }
    }
    assert forall|c: u64, j: u128| #[trigger] idx2.of(c).contains(j) <==> m2.contains_key(j)
        && client(m2[j]) == c by {
        assert(idx.of(c).contains(j) <==> m.contains_key(j) && client(m[j]) == c);
        assert(idx.of(c0).contains(j) <==> m.contains_key(j) && client(m[j]) == c0);
        if c != c0 {
            assert(idx2.of(c) == idx.of(c));
        } else {
            assert(!Seq::<u128>::empty().contains(j));
        }
        assert(m2.contains_key(j) <==> m.contains_key(j) && !idx.of(c0).contains(j));
    }
    assert forall|k: u128| #[trigger] m2.contains_key(k) <==> m.contains_key(k) && client(m[k])
        != c0 by {
        assert(idx.of(c0).contains(k) <==> m.contains_key(k) && client(m[k]) == c0);
    }
}

// ---------------------------------------------------------------------------
// What is named by a number and a byte string
// ---------------------------------------------------------------------------

/// An entry of an `OwnerTable`.
pub struct OwnerEntry {
    pub id: u64,
    pub name: Vec<u8>,
    pub value: u128,
}

impl OwnerEntry {
    /// What the entry stands under.
    pub open spec fn key(&self) -> (u64, Seq<u8>) {
        (self.id, self.name@)
    }
}

/// A table from a number and a byte string to a number.
pub struct OwnerTable {
    pub entries: Vec<OwnerEntry>,
}

/// What a list of entries stands for; a later entry counts before an earlier one.
pub open spec fn entries_map(s: Seq<OwnerEntry>) -> Map<(u64, Seq<u8>), u128>
    decreases s.len(),
{
    if s.len() == 0 {
        Map::empty()
    } else {
        entries_map(s.drop_last()).insert(s.last().key(), s.last().value)
    }
}

impl View for OwnerTable {
    type V = Map<(u64, Seq<u8>), u128>;

    open spec fn view(&self) -> Map<(u64, Seq<u8>), u128> {
        entries_map(self.entries@)
    }
}

impl OwnerTable {
    /// An empty table.
    pub fn new() -> (r: Self)
        ensures
            r@ == Map::<(u64, Seq<u8>), u128>::empty(),
    {
        OwnerTable { entries: Vec::new() }
    }

    /// What stands under the number and the byte string.
    pub fn get(&self, id: u64, name: &[u8]) -> (r: Option<u128>)
        ensures
            r == if self@.contains_key((id, name@)) {
                Some(self@[(id, name@)])
            } else {
                None
            },
    {
        let mut i: usize = self.entries.len();
        assert(self.entries@.take(i as int) =~= self.entries@);
        while i > 0
            invariant
                i <= self.entries.len(),
                entries_map(self.entries@).contains_key((id, name@)) <==> entries_map(
                    self.entries@.take(i as int),
                ).contains_key((id, name@)),
                entries_map(self.entries@).contains_key((id, name@)) ==> entries_map(
                    self.entries@,
                )[(id, name@)] == entries_map(self.entries@.take(i as int))[(id, name@)],
            decreases i,
        {
            let ghost t = self.entries@.take(i as int);
            i = i - 1;
            assert(t.drop_last() =~= self.entries@.take(i as int));
            let e = &self.entries[i];
            assert(t.last() == *e);
            if e.id == id && crate::bytes::bytes_eq(e.name.as_slice(), name) {
                return Some(e.value);
            }
        }
        None
    }

    /// Takes out what stands under the number and the byte string.
    pub fn remove(&mut self, id: u64, name: &[u8])
        ensures
            final(self)@ == old(self)@.remove((id, name@)),
    {
        let mut i: usize = 0;
        let mut rest: Vec<OwnerEntry> = Vec::new();
        assert(entries_map(self.entries@.take(0)).remove((id, name@)) =~= Map::empty());
        while i < self.entries.len()
            invariant
                self.entries@ == old(self).entries@,
                i <= self.entries.len(),
                entries_map(rest@) == entries_map(self.entries@.take(i as int)).remove(
                    (id, name@),
                ),
            decreases self.entries.len() - i,
        {
            let e = &self.entries[i];
            let ghost t = self.entries@.take(i + 1);
            assert(t.drop_last() =~= self.entries@.take(i as int));
            assert(t.last() == *e);
            if !(e.id == id && crate::bytes::bytes_eq(e.name.as_slice(), name)) {
                let copy = OwnerEntry {
                    id: e.id,
                    name: crate::bytes::bytes_vec(e.name.as_slice()),
                    value: e.value,
                };
                let ghost before = rest@;
                rest.push(copy);
                assert(rest@.drop_last() =~= before);
                assert(entries_map(rest@) =~= entries_map(t).remove((id, name@)));
            } else {
                assert(entries_map(rest@) =~= entries_map(t).remove((id, name@)));
            }
            i = i + 1;
        }
        assert(self.entries@.take(i as int) =~= self.entries@);
        self.entries = rest;
    }

    /// Puts something under the number and the byte string, in place of what stood there.
    pub fn insert(&mut self, id: u64, name: Vec<u8>, value: u128)
        ensures
            final(self)@ == old(self)@.insert((id, name@), value),
    {
        self.remove(id, name.as_slice());
        let ghost before = self.entries@;
        self.entries.push(OwnerEntry { id, name, value });
        assert(self.entries@.drop_last() =~= before);
        assert(self@ =~= old(self)@.insert((id, name@), value));
    }
}

} // verus!
