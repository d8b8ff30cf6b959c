//! Listing directories.

use crate::args::ReaddirArgs;
use crate::attrs::{answers, encode_fattr4, names_wanted_do_not_fit};
use crate::bytes::{be64, be_bool, opaque, put_bool, put_opaque, put_u64, put_zeros, zeros};
use crate::compound::{CompoundContext, CompoundHandler};
use crate::error::{Nfs4Result, Nfs4Status};
use crate::ops::{answer_with, answers_with, give_up, gives_up, pass_on, stop, stops, OpStep, OpTask};
use crate::storage::{DirEntry, FsAnswer, FsCall};
use crate::text::text_bytes;
use crate::types::{Fattr4, FileAttrs};
use crate::xdr::XDR;
use vstd::prelude::*;

verus! {

/// How many names are fetched for a client that wants so many bytes of names.
pub open spec fn entries_wanted(dircount: u32) -> usize {
    if dircount == 0 {
        256
    } else if dircount / 64 > 16 {
        (dircount / 64) as usize
    } else {
        16
    }
}

/// What an entry starts with: that there is one, and the number to go on behind.
pub open spec fn entry_head(e: DirEntry) -> Seq<u8> {
    be_bool(true) + be64(e.fileid)
}

/// The name of an entry.
#[verifier::opaque]
pub open spec fn entry_name(e: DirEntry) -> Seq<u8> {
    text_bytes(e.name@)
}

/// An entry with its attributes.
#[verifier::opaque]
pub open spec fn entry_bytes(e: DirEntry, fattr: Fattr4) -> Seq<u8> {
    entry_head(e) + opaque(entry_name(e)) + fattr.encoding()
}

/// Whether these are the attributes of an entry that are sent.
pub open spec fn are_attrs(e: DirEntry, request: Seq<u32>, fattr: Fattr4) -> bool {
    exists|a: FileAttrs| #[trigger]
        a.is_of(e.status) && !names_wanted_do_not_fit(a, request) && answers(
            fattr,
            a,
            None,
            request,
        )
}

/// Whether `p` is what was written of an entry that cannot be sent whole: what comes before the
/// part that is too long.
#[verifier::opaque]
pub open spec fn is_part(e: DirEntry, request: Seq<u32>, p: Seq<u8>) -> bool {
    ||| entry_name(e).len() >= u32::MAX && p == entry_head(e)
    ||| exists|a: FileAttrs| #[trigger]
        a.is_of(e.status) && names_wanted_do_not_fit(a, request) && p == entry_head(e) + opaque(
            entry_name(e),
        )
    ||| exists|fattr: Fattr4| #[trigger]
        are_attrs(e, request, fattr) && !fattr.encodable() && p == entry_head(e) + opaque(
            entry_name(e),
        ) + fattr.attrmask.encoding()
}

/// The first entries, behind eight bytes that stand for the state of the directory.
#[verifier::opaque]
pub open spec fn listing(entries: Seq<DirEntry>, fattrs: Seq<Fattr4>, n: int) -> Seq<u8>
    decreases n,
{
    if n <= 0 {
        zeros(8)
    } else {
        listing(entries, fattrs, n - 1) + entry_bytes(entries[n - 1], fattrs[n - 1])
    }
}

/// Whether there seems to be room for an entry behind so many bytes.
pub open spec fn has_place(e: DirEntry, used: int, maxcount: u32) -> bool {
    used + 8 + 4 + entry_name(e).len() + 100 + 4 <= maxcount
}

/// Whether an entry can be sent with these attributes.
#[verifier::opaque]
pub open spec fn can_be_sent(e: DirEntry, request: Seq<u32>, fattr: Fattr4) -> bool {
    &&& entry_name(e).len() < u32::MAX
    &&& are_attrs(e, request, fattr)
    &&& fattr.encodable()
}

/// Whether there seemed to be room for an entry, and it was listed with its attributes.
pub open spec fn is_placed(
    entries: Seq<DirEntry>,
    request: Seq<u32>,
    maxcount: u32,
    fattrs: Seq<Fattr4>,
    i: int,
) -> bool {
    &&& has_place(entries[i], listing(entries, fattrs, i).len() as int, maxcount)
    &&& can_be_sent(entries[i], request, fattrs[i])
}

/// Whether the entries were listed that there seemed to be room for, each with its attributes.
pub open spec fn all_placed(
    entries: Seq<DirEntry>,
    request: Seq<u32>,
    maxcount: u32,
    fattrs: Seq<Fattr4>,
) -> bool {
    forall|i: int|
        0 <= i < fattrs.len() ==> #[trigger] is_placed(entries, request, maxcount, fattrs, i)
}

proof fn one_more_placed(
    entries: Seq<DirEntry>,
    request: Seq<u32>,
    maxcount: u32,
    fattrs: Seq<Fattr4>,
    fattr: Fattr4,
)
    requires
        all_placed(entries, request, maxcount, fattrs),
        fattrs.len() < entries.len(),
        has_place(
            entries[fattrs.len() as int],
            listing(entries, fattrs, fattrs.len() as int).len() as int,
            maxcount,
        ),
        can_be_sent(entries[fattrs.len() as int], request, fattr),
    ensures
        all_placed(entries, request, maxcount, fattrs.push(fattr)),
        listing(entries, fattrs.push(fattr), fattrs.len() as int + 1) == listing(
            entries,
            fattrs,
            fattrs.len() as int,
        ) + entry_bytes(entries[fattrs.len() as int], fattr),
{
    let more = fattrs.push(fattr);
    let n = fattrs.len() as int;
    listing_agrees(entries, more, fattrs, n);
    assert(listing(entries, more, n + 1) == listing(entries, more, n) + entry_bytes(
        entries[n],
        fattr,
    )) by {
        reveal_with_fuel(listing, 2);
    }
    assert forall|i: int| 0 <= i < more.len() implies #[trigger] is_placed(
        entries,
        request,
        maxcount,
        more,
        i,
    ) by {
        listing_agrees(entries, more, fattrs, i);
        if i < n {
            assert(is_placed(entries, request, maxcount, fattrs, i));
        }
    }
}

/// Whether as many entries were listed, in their order, as there seemed to be room for.
pub open spec fn has_listed(
    entries: Seq<DirEntry>,
    request: Seq<u32>,
    maxcount: u32,
    fattrs: Seq<Fattr4>,
    part: Seq<u8>,
) -> bool {
    let n = fattrs.len() as int;
    &&& n <= entries.len()
    &&& all_placed(entries, request, maxcount, fattrs)
    &&& n < entries.len() && has_place(
        entries[n],
        listing(entries, fattrs, n).len() as int,
        maxcount,
    ) ==> is_part(entries[n], request, part)
    &&& part.len() > 0 ==> n < entries.len() && has_place(
        entries[n],
        listing(entries, fattrs, n).len() as int,
        maxcount,
    )
}

/// How an entry was written.
enum Put {
    Whole(Ghost<Fattr4>),
    Part,
}

/// Writes an entry.
fn encode_entry(out: &mut Vec<u8>, e: &DirEntry, request: &[u32]) -> (r: Put)
    ensures
        match r {
            Put::Whole(fattr) => can_be_sent(*e, request@, fattr@) && final(out)@ == old(out)@
                + entry_bytes(*e, fattr@),
            Put::Part => exists|p: Seq<u8>| #[trigger]
                is_part(*e, request@, p) && p.len() > 0 && final(out)@ == old(out)@ + p,
        },
{
    reveal(entry_name);
    reveal(entry_bytes);
    reveal(is_part);
    reveal(can_be_sent);
    let ghost o = out@;
    put_bool(out, true);
    put_u64(out, e.fileid);
    assert(out@ =~= o + entry_head(*e));
    assert(entry_head(*e).len() > 0) by {
        crate::bytes::be64_round_trip(e.fileid, Seq::empty());
    }
    let name = e.name.as_str().as_bytes();
    if name.len() >= u32::MAX as usize {
        assert(is_part(*e, request@, entry_head(*e)));
        return Put::Part;
    }
    put_opaque(out, name);
    let ghost p = entry_head(*e) + opaque(entry_name(*e));
    assert(out@ =~= o + p);
    let attrs = FileAttrs::from_status(&e.status);
    proof {
        crate::types::millis_countable(e.status.mtime);
    }
    match encode_fattr4(&attrs, request, None) {
        Err(_) => {
            assert(attrs.is_of(e.status));
            assert(is_part(*e, request@, p));
            Put::Part
        },
        Ok(fattr) => {
            assert(attrs.is_of(e.status));
            assert(are_attrs(*e, request@, fattr));
            if fattr.attr_vals.len() >= u32::MAX as usize {
                let ghost q = p + fattr.attrmask.encoding();
                let _ = fattr.attrmask.serialize(out);
                assert(out@ =~= o + q);
                assert(!fattr.encodable());
                assert(is_part(*e, request@, q));
                return Put::Part;
            }
            let _ = fattr.serialize(out);
            assert(fattr.encodable());
            assert(out@ =~= o + entry_bytes(*e, fattr));
            Put::Whole(Ghost(fattr))
        },
    }
}

proof fn listing_agrees(entries: Seq<DirEntry>, a: Seq<Fattr4>, b: Seq<Fattr4>, n: int)
    requires
        n <= a.len(),
        n <= b.len(),
        forall|i: int| 0 <= i < n ==> a[i] == b[i],
    ensures
        listing(entries, a, n) == listing(entries, b, n),
    decreases n,
{
    reveal(listing);
    if n > 0 {
        listing_agrees(entries, a, b, n - 1);
    }
}

impl CompoundHandler {
    /// Begins to list a directory. The numbers one and two are not handed out to go on behind.
    pub open spec fn readdir_step(
        &self,
        ctx: CompoundContext,
        args: ReaddirArgs,
        step: OpStep,
    ) -> bool {
        match self.target(ctx) {
            Err(st) => gives_up(step, st),
            Ok(dir) => if args.cookie == 1 || args.cookie == 2 {
                gives_up(step, Nfs4Status::BadCookie)
            } else {
                step == (OpStep::Call {
                    task: OpTask::Readdir {
                        maxcount: args.maxcount,
                        request: args.attr_request.items,
                    },
                    call: FsCall::Readdir {
                        dir,
                        cookie: args.cookie,
                        max_entries: entries_wanted(args.dircount),
                    },
                })
            },
        }
    }

    /// Begins to list a directory. The numbers one and two are not handed out to go on behind.
    pub fn op_readdir(&self, ctx: &CompoundContext, args: ReaddirArgs) -> (r: OpStep)
        ensures
            self.readdir_step(*ctx, args, r),
    {
        let dir = match self.current_file(ctx) {
            Err(e) => {
                return pass_on(e);
            },
            Ok(f) => f,
        };
        if args.cookie == 1 || args.cookie == 2 {
            return give_up(Nfs4Status::BadCookie);
        }
        let max_entries: usize = if args.dircount > 0 {
            let n: u32 = args.dircount / 64;
            if n > 16 {
                n as usize
            } else {
                16
            }
        } else {
            256
        };
        OpStep::Call {
            task: OpTask::Readdir { maxcount: args.maxcount, request: args.attr_request.items },
            call: FsCall::Readdir { dir, cookie: args.cookie, max_entries },
        }
    }

    /// What is in the directory is known. Behind the entries stands that there are no more here,
    /// and whether there are none at all: that is so where the storage had no more and all that it
    /// gave found a place.
    pub open spec fn readdir_done_step(
        maxcount: u32,
        request: Vec<u32>,
        answer: Nfs4Result<FsAnswer>,
        step: OpStep,
    ) -> bool {
        match answer {
            Ok(FsAnswer::Entries { entries, end }) => exists|
                fattrs: Seq<Fattr4>,
                part: Seq<u8>,
            |
                {
                    &&& #[trigger] has_listed(entries@, request@, maxcount, fattrs, part)
                    &&& answers_with(
                        step,
                        listing(entries@, fattrs, fattrs.len() as int) + part + be_bool(false)
                            + be_bool(end && fattrs.len() == entries@.len()),
                    )
                },
            _ => stops(answer, step),
        }
    }

    /// What is in the directory is known. Behind the entries stands that there are no more here,
    /// and whether there are none at all: that is so where the storage had no more and all that it
    /// gave found a place.
    pub fn readdir_done(
        maxcount: u32,
        request: Vec<u32>,
        answer: Nfs4Result<FsAnswer>,
    ) -> (r: OpStep)
        ensures
            Self::readdir_done_step(maxcount, request, answer, r),
    {
        let (entries, end) = match answer {
            Ok(FsAnswer::Entries { entries, end }) => (entries, end),
            _ => {
                return stop(answer);
            },
        };
        let mut out: Vec<u8> = Vec::new();
        put_zeros(&mut out, 8);
        let ghost mut fattrs: Seq<Fattr4> = Seq::empty();
        let ghost mut part: Seq<u8> = Seq::empty();
        assert(out@ =~= listing(entries@, fattrs, 0)) by {
            reveal(listing);
        }
        let most: usize = maxcount as usize;
        let mut i: usize = 0;
        let mut full = false;
        while i < entries.len() && !full
            invariant
                i <= entries@.len(),
                most == maxcount,
                fattrs.len() == i,
                all_placed(entries@, request@, maxcount, fattrs),
                full ==> has_listed(entries@, request@, maxcount, fattrs, part),
                out@ == listing(entries@, fattrs, i as int) + part,
                part.len() > 0 ==> full,
            decreases
                entries@.len() - i,
                if full {
                    0int
                } else {
                    1
                },
        {
            assert(part =~= Seq::empty());
            assert(out@ =~= listing(entries@, fattrs, i as int));
            reveal(entry_name);
            let n: usize = entries[i].name.as_str().as_bytes().len();
            if out.len() > most || n > most - out.len() || 116 > most - out.len() - n {
                full = true;
                assert(!has_place(entries@[i as int], out@.len() as int, maxcount));
            } else {
                let ghost o = out@;
                match encode_entry(&mut out, &entries[i], request.as_slice()) {
                    Put::Whole(got) => {
                        let ghost fattr = got@;
                        proof {
                            one_more_placed(entries@, request@, maxcount, fattrs, fattr);
                            fattrs = fattrs.push(fattr);
                        }
                        i += 1;
                        assert(out@ =~= listing(entries@, fattrs, i as int) + part);
                    },
                    Put::Part => {
                        full = true;
                        proof {
                            let p = choose|p: Seq<u8>| #[trigger]
                                is_part(entries@[i as int], request@, p) && p.len() > 0 && out@ == o
                                    + p;
                            part = p;
                        }
                    },
                }
            }
        }
        put_bool(&mut out, false);
        put_bool(&mut out, end && i == entries.len());
        assert(has_listed(entries@, request@, maxcount, fattrs, part));
        assert(out@ =~= listing(entries@, fattrs, fattrs.len() as int) + part + be_bool(false)
            + be_bool(end && fattrs.len() == entries@.len()));
        answer_with(out)
    }
}

} // verus!
