//! Passing over what operations are asked with, for operations that are not run.

use crate::args::{
    AnyOpaque, CloseArgs, CommitArgs, CreateArgs, CreateSessionArgs, ExchangeIdArgs, List,
    LockArgs, LockHead, LocktArgs, LockuArgs, NewLocker, OldLocker, OpenArgs, OpenConfirmArgs,
    OpenDowngradeArgs, ReadArgs, ReaddirArgs, ReleaseLockownerArgs, RenameArgs, SequenceArgs,
    SetattrArgs, SetclientidArgs, SetclientidConfirmArgs, WriteArgs,
};
use crate::bytes::{be32_at, need, Reader, XdrError};
use crate::compound::Nfs4Op;
use crate::types::{Fattr4, Sessionid4, Stateid4};
use crate::xdr::Decode;
use vstd::prelude::*;

verus! {

broadcast use {crate::bytes::skip_skip, crate::bytes::skip_nothing};

/// Whether it is known with what an operation is asked. Of operations that are not served, it is not.
pub open spec fn has_layout(op: Nfs4Op) -> bool {
    match op {
        Nfs4Op::Delegpurge
        | Nfs4Op::BackchannelCtl
        | Nfs4Op::BindConnToSession
        | Nfs4Op::FreeStateid
        | Nfs4Op::GetDirDelegation
        | Nfs4Op::Getdeviceinfo
        | Nfs4Op::Getdevicelist
        | Nfs4Op::Layoutcommit
        | Nfs4Op::Layoutget
        | Nfs4Op::Layoutreturn
        | Nfs4Op::SetSsv
        | Nfs4Op::TestStateid
        | Nfs4Op::WantDelegation
        | Nfs4Op::DestroyClientid
        | Nfs4Op::Illegal => false,
        _ => true,
    }
}

/// How many bytes an operation is asked with, as far as that is known; otherwise none are counted.
pub open spec fn args_len(op: Nfs4Op, s: Seq<u8>) -> Result<nat, XdrError> {
    match op {
        Nfs4Op::Sequence => SequenceArgs::decoded_len(s),
        Nfs4Op::Putfh => AnyOpaque::decoded_len(s),
        Nfs4Op::Getattr => List::<u32>::decoded_len(s),
        Nfs4Op::Lookup | Nfs4Op::Secinfo | Nfs4Op::Remove | Nfs4Op::Link => Vec::<
            u8,
        >::decoded_len(s),
        Nfs4Op::Read => ReadArgs::decoded_len(s),
        Nfs4Op::Setclientid => SetclientidArgs::decoded_len(s),
        Nfs4Op::SetclientidConfirm => SetclientidConfirmArgs::decoded_len(s),
        Nfs4Op::Close => CloseArgs::decoded_len(s),
        Nfs4Op::Write => WriteArgs::decoded_len(s),
        Nfs4Op::Commit => CommitArgs::decoded_len(s),
        Nfs4Op::Access
        | Nfs4Op::ReclaimComplete
        | Nfs4Op::Openattr
        | Nfs4Op::SecinfoNoName => u32::decoded_len(s),
        Nfs4Op::OpenDowngrade => OpenDowngradeArgs::decoded_len(s),
        Nfs4Op::Setattr => SetattrArgs::decoded_len(s),
        Nfs4Op::Readdir => ReaddirArgs::decoded_len(s),
        Nfs4Op::Create => CreateArgs::decoded_len(s),
        Nfs4Op::Rename => RenameArgs::decoded_len(s),
        Nfs4Op::Open => OpenArgs::decoded_len(s),
        Nfs4Op::Lock => LockArgs::decoded_len(s),
        Nfs4Op::Lockt => LocktArgs::decoded_len(s),
        Nfs4Op::Locku => LockuArgs::decoded_len(s),
        Nfs4Op::ExchangeId => ExchangeIdArgs::decoded_len(s),
        Nfs4Op::CreateSession => CreateSessionArgs::decoded_len(s),
        Nfs4Op::DestroySession => Sessionid4::decoded_len(s),
        Nfs4Op::OpenConfirm => OpenConfirmArgs::decoded_len(s),
        Nfs4Op::Renew => u64::decoded_len(s),
        Nfs4Op::Delegreturn => Stateid4::decoded_len(s),
        Nfs4Op::Nverify | Nfs4Op::Verify => Fattr4::decoded_len(s),
        Nfs4Op::ReleaseLockowner => ReleaseLockownerArgs::decoded_len(s),
        _ => Ok(0),
    }
}

/// Passes over a value.
fn skip<T: Decode>(input: &mut Reader<'_>) -> (r: Result<(), XdrError>)
    ensures
        match T::decoded_len(old(input)@) {
            Ok(n) => r is Ok && n <= old(input)@.len() && final(input)@ == old(input)@.skip(
                n as int,
            ),
            Err(e) => r == Err::<(), XdrError>(e),
        },
{
    match T::decode(input) {
        Ok(_) => Ok(()),
        Err(e) => Err(e),
    }
}

/// Passes over what an operation is asked with.
pub fn skip_operation_args(op: Nfs4Op, input: &mut Reader<'_>) -> (r: Result<(), XdrError>)
    ensures
        match args_len(op, old(input)@) {
            Ok(n) => r is Ok && n <= old(input)@.len() && final(input)@ == old(input)@.skip(
                n as int,
            ),
            Err(e) => r == Err::<(), XdrError>(e),
        },
{
    match op {
        Nfs4Op::Sequence => skip::<SequenceArgs>(input),
        Nfs4Op::Putfh => skip::<AnyOpaque>(input),
        Nfs4Op::Getattr => skip::<List<u32>>(input),
        Nfs4Op::Lookup => skip::<Vec<u8>>(input),
        Nfs4Op::Secinfo => skip::<Vec<u8>>(input),
        Nfs4Op::Remove => skip::<Vec<u8>>(input),
        Nfs4Op::Link => skip::<Vec<u8>>(input),
        Nfs4Op::Read => skip::<ReadArgs>(input),
        Nfs4Op::Setclientid => skip::<SetclientidArgs>(input),
        Nfs4Op::SetclientidConfirm => skip::<SetclientidConfirmArgs>(input),
        Nfs4Op::Close => skip::<CloseArgs>(input),
        Nfs4Op::Write => skip::<WriteArgs>(input),
        Nfs4Op::Commit => skip::<CommitArgs>(input),
        Nfs4Op::Access => skip::<u32>(input),
        Nfs4Op::ReclaimComplete => skip::<u32>(input),
        Nfs4Op::Openattr => skip::<u32>(input),
        Nfs4Op::SecinfoNoName => skip::<u32>(input),
        Nfs4Op::OpenDowngrade => skip::<OpenDowngradeArgs>(input),
        Nfs4Op::Setattr => skip::<SetattrArgs>(input),
        Nfs4Op::Readdir => skip::<ReaddirArgs>(input),
        Nfs4Op::Create => skip::<CreateArgs>(input),
        Nfs4Op::Rename => skip::<RenameArgs>(input),
        Nfs4Op::Open => skip::<OpenArgs>(input),
        Nfs4Op::Lock => skip::<LockArgs>(input),
        Nfs4Op::Lockt => skip::<LocktArgs>(input),
        Nfs4Op::Locku => skip::<LockuArgs>(input),
        Nfs4Op::ExchangeId => skip::<ExchangeIdArgs>(input),
        Nfs4Op::CreateSession => skip::<CreateSessionArgs>(input),
        Nfs4Op::DestroySession => skip::<Sessionid4>(input),
        Nfs4Op::OpenConfirm => skip::<OpenConfirmArgs>(input),
        Nfs4Op::Renew => skip::<u64>(input),
        Nfs4Op::Delegreturn => skip::<Stateid4>(input),
        Nfs4Op::Nverify => skip::<Fattr4>(input),
        Nfs4Op::Verify => skip::<Fattr4>(input),
        Nfs4Op::ReleaseLockowner => skip::<ReleaseLockownerArgs>(input),
        _ => Ok(()),
    }
}

/// A request to lock that can be read is passed over as a whole: exactly the bytes are skipped that
/// reading it takes up.
pub proof fn law_lock_is_passed_over(s: Seq<u8>, head: LockHead)
    requires
        LockHead::decoded_len(s) is Ok,
        head.decodes_to(s),
    ensures
        ({
            let n = LockHead::decoded_len(s)->Ok_0;
            let t = s.skip(n as int);
            args_len(Nfs4Op::Lock, s) == match if head.locker_type == 1 {
                NewLocker::decoded_len(t)
            } else {
                OldLocker::decoded_len(t)
            } {
                Ok(m) => Ok::<nat, XdrError>(n + m),
                Err(e) => Err(e),
            }
        }),
{
}

/// Where the operation behind the next one starts, if that can be told.
pub open spec fn op_len(s: Seq<u8>) -> Result<Option<nat>, XdrError> {
    match need(s, 4) {
        Err(e) => Err(e),
        Ok(_) => rest_of_op(Nfs4Op::of_code(be32_at(s)), s.skip(4), 4),
    }
}

/// Where the operation behind one starts that is asked with `s`, which stands behind `start` bytes,
/// if that can be told.
pub open spec fn rest_of_op(op: Nfs4Op, s: Seq<u8>, start: nat) -> Result<Option<nat>, XdrError> {
    if has_layout(op) {
        match args_len(op, s) {
            Err(e) => Err(e),
            Ok(n) => Ok(Some(start + n)),
        }
    } else {
        Ok(None)
    }
}

/// How many bytes `count` operations take with what they are asked with. Behind an operation that
/// is not served nothing can be told apart, and nothing is counted.
pub open spec fn ops_len(s: Seq<u8>, count: nat) -> Result<nat, XdrError>
    decreases count,
{
    if count == 0 {
        Ok(0)
    } else {
        match op_len(s) {
            Err(e) => Err(e),
            Ok(None) => Ok(4),
            Ok(Some(n)) => match ops_len(s.skip(n as int), (count - 1) as nat) {
                Err(e) => Err(e),
                Ok(m) => Ok(n + m),
            },
        }
    }
}

/// Whether what an operation is asked with can be read, and the `count` operations behind it.
pub open spec fn rest_len(op: Nfs4Op, s: Seq<u8>, count: nat) -> Result<nat, XdrError> {
    match rest_of_op(op, s, 0) {
        Err(e) => Err(e),
        Ok(None) => Ok(0),
        Ok(Some(n)) => match ops_len(s.skip(n as int), count) {
            Err(e) => Err(e),
            Ok(m) => Ok(n + m),
        },
    }
}

fn is_known(op: Nfs4Op) -> (r: bool)
    ensures
        r == has_layout(op),
{
    match op {
        Nfs4Op::Delegpurge
        | Nfs4Op::BackchannelCtl
        | Nfs4Op::BindConnToSession
        | Nfs4Op::FreeStateid
        | Nfs4Op::GetDirDelegation
        | Nfs4Op::Getdeviceinfo
        | Nfs4Op::Getdevicelist
        | Nfs4Op::Layoutcommit
        | Nfs4Op::Layoutget
        | Nfs4Op::Layoutreturn
        | Nfs4Op::SetSsv
        | Nfs4Op::TestStateid
        | Nfs4Op::WantDelegation
        | Nfs4Op::DestroyClientid
        | Nfs4Op::Illegal => false,
        _ => true,
    }
}

/// Passes over operations with what they are asked with. Behind an operation that is not served
/// nothing can be told apart, and nothing is passed over.
pub fn skip_remaining_ops(input: &mut Reader<'_>, count: usize) -> (r: Result<(), XdrError>)
    ensures
        match ops_len(old(input)@, count as nat) {
            Ok(n) => r is Ok && n <= old(input)@.len() && final(input)@ == old(input)@.skip(
                n as int,
            ),
            Err(e) => r == Err::<(), XdrError>(e),
        },
{
    let ghost s = input@;
    let ghost mut done: nat = 0;
    let mut left: usize = count;
    while left > 0
        invariant
            s == old(input)@,
            left <= count,
            done <= s.len(),
            input@ == s.skip(done as int),
            ops_len(s, count as nat) == match ops_len(input@, left as nat) {
                Ok(m) => Ok::<nat, XdrError>(done + m),
                Err(e) => Err(e),
            },
        decreases left,
    {
        let op = Nfs4Op::from(input.read_u32()?);
        if !is_known(op) {
            return Ok(());
        }
        skip_operation_args(op, input)?;
        proof {
            let t = s.skip(done as int);
            done = done + op_len(t)->Ok_0->Some_0;
        }
        left = left - 1;
    }
    Ok(())
}

/// Passes over what an operation is asked with, and over the `count` operations behind it.
pub fn skip_rest(op: Nfs4Op, input: &mut Reader<'_>, count: usize) -> (r: Result<(), XdrError>)
    ensures
        match rest_len(op, old(input)@, count as nat) {
            Ok(n) => r is Ok && n <= old(input)@.len() && final(input)@ == old(input)@.skip(
                n as int,
            ),
            Err(e) => r == Err::<(), XdrError>(e),
        },
{
    if !is_known(op) {
        return Ok(());
    }
    skip_operation_args(op, input)?;
    skip_remaining_ops(input, count)
}

} // verus!
