//! The port mapper: whoever asks is sent to the port that it has asked at.

use crate::bytes::{be32, put_u32, Reader, XdrError};
use crate::rpc::{accept_body, accepted_bytes, call_body, mismatch_info, put_accepted};
use crate::xdr::{after, rest, Decode, XDR};
use vstd::prelude::*;

verus! {

/// The number of TCP among the protocols.
pub const IPPROTO_TCP: u32 = 6;

/// The number of UDP among the protocols.
pub const IPPROTO_UDP: u32 = 17;

/// The number of the port mapper among the programs.
pub const PROGRAM: u32 = 100000;

/// The version of the port mapper.
pub const VERSION: u32 = 2;

/// Where a program is.
#[derive(Clone, Copy, Debug)]
pub struct mapping {
    pub prog: u32,
    pub vers: u32,
    pub prot: u32,
    pub port: u32,
}

impl Default for mapping {
    fn default() -> (r: Self)
        ensures
            r == (mapping { prog: 0, vers: 0, prot: 0, port: 0 }),
    {
        mapping { prog: 0, vers: 0, prot: 0, port: 0 }
    }
}

impl Decode for mapping {
    open spec fn decoded_len(s: Seq<u8>) -> Result<nat, XdrError> {
        let n = u32::decoded_len(s);
        let n = after::<u32>(n, s);
        let n = after::<u32>(n, s);
        let n = after::<u32>(n, s);
        n
    }

    open spec fn decodes_to(&self, s: Seq<u8>) -> bool {
        let n1 = u32::decoded_len(s);
        let n2 = after::<u32>(n1, s);
        let n3 = after::<u32>(n2, s);
        &&& self.prog.decodes_to(s)
        &&& self.vers.decodes_to(rest(n1, s))
        &&& self.prot.decodes_to(rest(n2, s))
        &&& self.port.decodes_to(rest(n3, s))
    }

    fn decode(src: &mut Reader<'_>) -> (r: Result<Self, XdrError>) {
        broadcast use crate::bytes::skip_skip;

        let prog = u32::decode(src)?;
        let vers = u32::decode(src)?;
        let prot = u32::decode(src)?;
        let port = u32::decode(src)?;
        Ok(mapping { prog, vers, prot, port })
    }
}

impl XDR for mapping {
    open spec fn encodable(&self) -> bool {
        true
    }

    open spec fn encoding(&self) -> Seq<u8> {
        be32(self.prog) + be32(self.vers) + be32(self.prot) + be32(self.port)
    }

    open spec fn readable(&self) -> bool {
        true
    }

    proof fn round_trip(&self, t: Seq<u8>) {
        let a = be32(self.prog);
        let b = be32(self.vers);
        let c = be32(self.prot);
        let d = be32(self.port);
        let t3 = d + t;
        let t2 = c + t3;
        let t1 = b + t2;
        let s = self.encoding() + t;
        crate::bytes::be32_round_trip(self.prog, t1);
        crate::bytes::be32_round_trip(self.vers, t2);
        crate::bytes::be32_round_trip(self.prot, t3);
        crate::bytes::be32_round_trip(self.port, t);
        assert(s =~= a + t1);
        assert(s.skip(4) =~= t1);
        assert(s.skip(8) =~= t2);
        assert(s.skip(12) =~= t3);
    }

    fn serialize(&self, dest: &mut Vec<u8>) -> (r: Result<(), XdrError>) {
        let ghost o = dest@;
        put_u32(dest, self.prog);
        put_u32(dest, self.vers);
        put_u32(dest, self.prot);
        put_u32(dest, self.port);
        assert(dest@ =~= o + self.encoding());
        Ok(())
    }
}

/// What a client wants of the port mapper.
#[derive(Clone, Copy, Debug, PartialEq, Eq, Structural)]
pub enum PortmapProgram {
    PMAPPROC_NULL,
    PMAPPROC_SET,
    PMAPPROC_UNSET,
    PMAPPROC_GETPORT,
    PMAPPROC_DUMP,
    PMAPPROC_CALLIT,
    INVALID,
}

impl From<u32> for PortmapProgram {
    fn from(v: u32) -> (r: Self) {
        match v {
            0 => PortmapProgram::PMAPPROC_NULL,
            1 => PortmapProgram::PMAPPROC_SET,
            2 => PortmapProgram::PMAPPROC_UNSET,
            3 => PortmapProgram::PMAPPROC_GETPORT,
            4 => PortmapProgram::PMAPPROC_DUMP,
            5 => PortmapProgram::PMAPPROC_CALLIT,
            _ => PortmapProgram::INVALID,
        }
    }
}

impl vstd::std_specs::convert::FromSpecImpl<u32> for PortmapProgram {
    open spec fn obeys_from_spec() -> bool {
        true
    }

    open spec fn from_spec(v: u32) -> Self {
        if v == 0 {
            PortmapProgram::PMAPPROC_NULL
        } else if v == 1 {
            PortmapProgram::PMAPPROC_SET
        } else if v == 2 {
            PortmapProgram::PMAPPROC_UNSET
        } else if v == 3 {
            PortmapProgram::PMAPPROC_GETPORT
        } else if v == 4 {
            PortmapProgram::PMAPPROC_DUMP
        } else if v == 5 {
            PortmapProgram::PMAPPROC_CALLIT
        } else {
            PortmapProgram::INVALID
        }
    }
}

/// What a call of the port mapper is answered.
pub open spec fn portmap_answer(
    xid: u32,
    vers: u32,
    proc: u32,
    s: Seq<u8>,
    local_port: u16,
) -> Result<Seq<u8>, XdrError> {
    if vers != VERSION {
        Ok(
            accepted_bytes(
                xid,
                accept_body::PROG_MISMATCH(mismatch_info { low: VERSION, high: VERSION }),
            ),
        )
    } else if proc == 0 {
        Ok(accepted_bytes(xid, accept_body::SUCCESS))
    } else if proc == 3 {
        match mapping::decoded_len(s) {
            Ok(_) => Ok(accepted_bytes(xid, accept_body::SUCCESS) + be32(local_port as u32)),
            Err(e) => Err(e),
        }
    } else {
        Ok(accepted_bytes(xid, accept_body::PROC_UNAVAIL))
    }
}

/// Whether a call is answered with these bytes.
pub open spec fn answers_as(r: Result<Vec<u8>, XdrError>, want: Result<Seq<u8>, XdrError>) -> bool {
    match want {
        Ok(bytes) => r is Ok && r->Ok_0@ == bytes,
        Err(e) => r is Err && r->Err_0 == e,
    }
}

/// Answers a call that does nothing.
pub fn pmapproc_null(xid: u32) -> (r: Vec<u8>)
    ensures
        r@ == accepted_bytes(xid, accept_body::SUCCESS),
{
    let mut out: Vec<u8> = Vec::new();
    put_accepted(&mut out, xid, accept_body::SUCCESS);
    assert(out@ =~= accepted_bytes(xid, accept_body::SUCCESS));
    out
}

/// Answers where a program is: here.
pub fn pmapproc_getport(xid: u32, input: &mut Reader<'_>, local_port: u16) -> (r: Result<
    Vec<u8>,
    XdrError,
>)
    ensures
        answers_as(r, portmap_answer(xid, VERSION, 3, old(input)@, local_port)),
{
    let _ = mapping::decode(input)?;
    let mut out = pmapproc_null(xid);
    put_u32(&mut out, local_port as u32);
    Ok(out)
}

/// Answers a call of the port mapper.
pub fn handle_portmap(xid: u32, call: &call_body, input: &mut Reader<'_>, local_port: u16) -> (r:
    Result<Vec<u8>, XdrError>)
    ensures
        answers_as(r, portmap_answer(xid, call.vers, call.proc, old(input)@, local_port)),
{
    let data = if call.vers != VERSION {
        accept_body::PROG_MISMATCH(mismatch_info { low: VERSION, high: VERSION })
    } else {
        match PortmapProgram::from(call.proc) {
            PortmapProgram::PMAPPROC_NULL => {
                return Ok(pmapproc_null(xid));
            },
            PortmapProgram::PMAPPROC_GETPORT => {
                return pmapproc_getport(xid, input, local_port);
            },
            _ => accept_body::PROC_UNAVAIL,
        }
    };
    let ghost d = data;
    let mut out: Vec<u8> = Vec::new();
    put_accepted(&mut out, xid, data);
    assert(out@ =~= accepted_bytes(xid, d));
    Ok(out)
}

} // verus!
