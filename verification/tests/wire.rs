use curvine_nfs::bytes::{
    bytes_eq, get_le32, get_le64, put_le64, put_opaque, put_u32, put_u64, Reader, XdrError,
};
use curvine_nfs::error::{FsErrorKind, Nfs4Error, Nfs4Status};
use curvine_nfs::pnfs::{
    decode_block_fh, decode_tagged_block_fh, decode_verified_block_fh, encode_block_body,
    encode_block_fh, encode_device_addr, encode_layout_segment, is_block_fh, tagged_block_fh,
    BlockPlan, ExtendedBlock, FileBlocks, LocatedBlock, PnfsDataServer, PnfsManager, StorageTypes,
    WorkerAddress,
};
use curvine_nfs::portmap::{handle_portmap, mapping, pmapproc_null, PortmapProgram};
use curvine_nfs::rpc::{
    accept_body, call_body, garbage_args_reply_message, make_success_reply,
    proc_unavail_reply_message, prog_mismatch_reply_message, prog_unavail_reply_message, reply_body,
    rpc_body, rpc_msg, rpc_vers_mismatch,
};
use curvine_nfs::skip::{skip_operation_args, skip_remaining_ops};
use curvine_nfs::compound::Nfs4Op;
use curvine_nfs::text::{
    build_child_path, is_dot, is_dot_dot, parent_path, parse_number, push_decimal, put_decimal,
    validate_filename,
};
use curvine_nfs::time::Duration;
use curvine_nfs::transaction::TransactionTracker;
use curvine_nfs::types::{
    used_by, FileAttrs, FileStatus, FileType, Nfs4FileHandle, Nfs4FileType, Nfstime4, Stateid4,
};
use curvine_nfs::wire::{read_callback_results, read_mark, write_mark, FragmentFault};
use curvine_nfs::write_counter::WriteCounter;
use curvine_nfs::xdr::{Decode, XDR};

fn encoded<T: XDR>(v: &T) -> Vec<u8> {
    let mut out = vec![];
    v.serialize(&mut out).unwrap();
    out
}

#[test]
fn numbers_have_their_bytes() {
    let mut out = vec![];
    put_u32(&mut out, 0x0102_0304);
    put_u64(&mut out, 0x0506_0708_090a_0b0c);
    assert_eq!(out, [1, 2, 3, 4, 5, 6, 7, 8, 9, 10, 11, 12]);
    let mut little = vec![];
    put_le64(&mut little, 0x0102_0304_0506_0708);
    assert_eq!(little, [8, 7, 6, 5, 4, 3, 2, 1]);
    assert_eq!(get_le32(&little, 4), 0x0102_0304);
    assert_eq!(get_le64(&little, 0), 0x0102_0304_0506_0708);
    assert!(bytes_eq(b"ab", b"ab"));
    assert!(!bytes_eq(b"ab", b"abc"));
}

#[test]
fn written_values_are_read_back() {
    let stateid = Stateid4 { seqid: 7, other: [3; 12] };
    let bytes = encoded(&stateid);
    assert_eq!(bytes.len(), 16);
    let mut r = Reader::new(&bytes);
    assert!(Stateid4::decode(&mut r).unwrap() == stateid);
    assert_eq!(r.remaining(), 0);

    let text: Vec<u8> = b"hello".to_vec();
    let bytes = encoded(&text);
    assert_eq!(bytes, [0, 0, 0, 5, 104, 101, 108, 108, 111, 0, 0, 0]);
    assert_eq!(Vec::<u8>::decode(&mut Reader::new(&bytes)).unwrap(), text);

    assert_eq!(encoded(&true), [0, 0, 0, 1]);
    assert_eq!(encoded(&-2i32), [255, 255, 255, 254]);
    assert_eq!(i64::decode(&mut Reader::new(&encoded(&-5i64))).unwrap(), -5);
    let words: Vec<u32> = vec![1, 2];
    assert_eq!(Vec::<u32>::decode(&mut Reader::new(&encoded(&words))).unwrap(), words);
}

#[test]
fn short_or_overlong_values_are_refused() {
    assert_eq!(u32::decode(&mut Reader::new(&[1, 2, 3])).err(), Some(XdrError::UnexpectedEof));
    let huge = [0x7f, 0, 0, 0];
    assert_eq!(Vec::<u8>::decode(&mut Reader::new(&huge)).err(), Some(XdrError::InvalidData));
    let mut out = vec![];
    put_opaque(&mut out, b"abc");
    let mut r = Reader::new(&out);
    assert!(r.skip_bytes(9).is_err());
}

#[test]
fn statuses_have_their_numbers() {
    for n in [0u32, 1, 2, 5, 13, 17, 30, 70, 10001, 10008, 10013, 10022, 10025, 10038, 10063] {
        assert_eq!(Nfs4Status::from(n).code(), n);
    }
    assert_eq!(Nfs4Status::from(4242), Nfs4Status::Success);
    assert_eq!(Nfs4Status::from(FsErrorKind::FileNotFound), Nfs4Status::Noent);
    assert_eq!(Nfs4Status::from(FsErrorKind::FileAlreadyExists), Nfs4Status::Exist);
    assert_eq!(Nfs4Status::from(FsErrorKind::DirNotEmpty), Nfs4Status::Notempty);
    assert_eq!(Nfs4Error::from(XdrError::UnexpectedEof).status(), Nfs4Status::Io);
    assert_eq!(Nfs4Error::from(Nfs4Status::Stale).status(), Nfs4Status::Stale);
}

#[test]
fn times_keep_their_nanoseconds() {
    let t = Nfstime4::at_unix(Duration { nanos: 1_700_000_000_123_456_789 });
    assert_eq!((t.seconds, t.nseconds), (1_700_000_000, 123_456_789));
    assert!(Nfstime4::now().seconds > 1_600_000_000);
}

#[test]
fn times_keep_their_milliseconds() {
    let t = Nfstime4::from_millis(12_345);
    assert_eq!((t.seconds, t.nseconds), (12, 345_000_000));
    assert_eq!(t.to_millis(), 12_345);
    assert!(Nfstime4::now().seconds > 1_577_836_800);
}

#[test]
fn attributes_follow_the_status() {
    let status = FileStatus {
        id: 9,
        name: String::from("f"),
        file_type: FileType::Link,
        mode: 0o777,
        nlink: 2,
        owner: String::from("o"),
        group: String::from("g"),
        len: 513,
        atime: 1000,
        mtime: 2001,
        target: Some(String::from("t")),
    };
    let a = FileAttrs::from_status(&status);
    assert_eq!(a.file_type, Nfs4FileType::Link);
    assert_eq!((a.size, a.used, a.fileid), (513, 1024, 9));
    assert_eq!((a.mtime.seconds, a.mtime.nseconds), (2, 1_000_000));
    assert_eq!(used_by(0), 0);
    assert_eq!(used_by(512), 512);
}

#[test]
fn names_are_checked() {
    assert!(validate_filename("a.txt").is_ok());
    assert_eq!(validate_filename("").err().unwrap().status, Nfs4Status::Inval);
    assert_eq!(validate_filename("a/b").err().unwrap().status, Nfs4Status::Inval);
    assert_eq!(validate_filename("a\0b").err().unwrap().status, Nfs4Status::Inval);
    assert_eq!(validate_filename("..").err().unwrap().status, Nfs4Status::Inval);
    assert!(is_dot(".") && !is_dot(".."));
    assert!(is_dot_dot("..") && !is_dot_dot("."));
}

#[test]
fn paths_are_joined_and_cut() {
    assert_eq!(build_child_path("/", "a"), "/a");
    assert_eq!(build_child_path("/a/b", "c"), "/a/b/c");
    assert_eq!(parent_path("/a/b"), "/a");
    assert_eq!(parent_path("/a"), "/");
    assert_eq!(parent_path("/"), "/");
}

#[test]
fn decimals_are_written_and_read() {
    let mut out = vec![];
    put_decimal(&mut out, 4_294_967_295);
    assert_eq!(out, b"4294967295");
    assert_eq!(parse_number(&out), Some(u32::MAX));
    assert_eq!(parse_number(b"4294967296"), None);
    assert_eq!(parse_number(b"12x"), None);
    assert_eq!(parse_number(b""), None);
    let mut s = String::from("n");
    push_decimal(&mut s, 0);
    push_decimal(&mut s, 120);
    assert_eq!(s, "n0120");
}

#[test]
fn blank_message_is_a_call() {
    let m = rpc_msg::default();
    assert_eq!(m.xid, 0);
    match m.body {
        rpc_body::CALL(c) => {
            assert_eq!((c.rpcvers, c.prog, c.vers, c.proc), (0, 0, 0, 0));
            assert!(c.cred.body.is_empty() && c.verf.body.is_empty());
        },
        rpc_body::REPLY(_) => panic!("a reply"),
    }
}

#[test]
fn replies_read_as_replies() {
    let bytes = encoded(&make_success_reply(9));
    assert_eq!(bytes, [0, 0, 0, 9, 0, 0, 0, 1, 0, 0, 0, 0, 0, 0, 0, 0, 0, 0, 0, 0, 0, 0, 0, 0]);
    let back = rpc_msg::decode(&mut Reader::new(&bytes)).unwrap();
    assert_eq!(back.xid, 9);
    assert!(matches!(
        back.body,
        rpc_body::REPLY(reply_body::MSG_ACCEPTED(a)) if matches!(a.reply_data, accept_body::SUCCESS)
    ));
    assert_eq!(encoded(&prog_unavail_reply_message(1))[20..], [0, 0, 0, 1]);
    assert_eq!(
        encoded(&prog_mismatch_reply_message(1, 4))[20..],
        [0, 0, 0, 2, 0, 0, 0, 4, 0, 0, 0, 4]
    );
    assert_eq!(encoded(&proc_unavail_reply_message(1))[20..], [0, 0, 0, 3]);
    assert_eq!(encoded(&garbage_args_reply_message(1))[20..], [0, 0, 0, 4]);
    assert_eq!(
        encoded(&rpc_vers_mismatch(1))[8..],
        [0, 0, 0, 1, 0, 0, 0, 0, 0, 0, 0, 0, 0, 0, 0, 0]
    );
}

#[test]
fn fragments_are_marked() {
    let m = read_mark(0x8000_0010, 0).ok().unwrap();
    assert_eq!((m.len, m.last), (16, true));
    let m = read_mark(16, 100).ok().unwrap();
    assert_eq!((m.len, m.last), (16, false));
    assert!(matches!(read_mark(0x7fff_ffff, 0).err().unwrap(), FragmentFault::Fragment));
    assert!(matches!(read_mark(0x0800_0000, 1).err().unwrap(), FragmentFault::Message));
    assert_eq!(write_mark(16), Some(0x8000_0010));
    assert_eq!(write_mark(1 << 31), None);
}

#[test]
fn arguments_are_skipped() {
    // A LOOKUP of "abc", and a PUTROOTFH.
    let ops = [0, 0, 0, 15, 0, 0, 0, 3, 97, 98, 99, 0, 0, 0, 0, 24, 1, 2];
    let mut r = Reader::new(&ops);
    assert!(skip_remaining_ops(&mut r, 2).is_ok());
    assert_eq!(r.remaining(), 2);
    let mut r = Reader::new(&ops[4..]);
    assert!(skip_operation_args(Nfs4Op::Lookup, &mut r).is_ok());
    assert_eq!(r.remaining(), 6);
    assert!(skip_remaining_ops(&mut Reader::new(&ops[..9]), 1).is_err());
}

#[test]
fn calls_are_known_again() {
    let mut t = TransactionTracker::new(Duration::from_secs(60));
    assert!(!t.is_retransmission_at(Duration::from_secs(1), 5, "a"));
    assert!(t.is_retransmission_at(Duration::from_secs(2), 5, "a"));
    assert!(!t.is_retransmission_at(Duration::from_secs(2), 5, "b"));
    t.mark_processed_at(Duration::from_secs(3), 5, "a");
    assert!(t.is_retransmission_at(Duration::from_secs(30), 5, "a"));
    assert!(!t.is_retransmission_at(Duration::from_secs(500), 5, "a"));
}

#[test]
fn portmap_tells_the_port() {
    assert_eq!(PortmapProgram::from(3), PortmapProgram::PMAPPROC_GETPORT);
    assert_eq!(PortmapProgram::from(99), PortmapProgram::INVALID);
    let args = encoded(&mapping { prog: 100003, vers: 4, prot: 6, port: 0 });
    let call = call_body { prog: 100000, vers: 2, proc: 3, ..call_body::default() };
    let reply = handle_portmap(8, &call, &mut Reader::new(&args), 2049).unwrap();
    assert_eq!(reply[24..], [0, 0, 8, 1]);
    assert_eq!(pmapproc_null(8), encoded(&make_success_reply(8)));
    let odd = call_body { proc: 4, ..call };
    let reply = handle_portmap(8, &odd, &mut Reader::new(&args), 2049).unwrap();
    assert_eq!(reply, encoded(&proc_unavail_reply_message(8)));
    let old = call_body { prog: 100000, vers: 3, proc: 3, ..call_body::default() };
    let reply = handle_portmap(8, &old, &mut Reader::new(&args), 2049).unwrap();
    assert_eq!(reply, encoded(&prog_mismatch_reply_message(8, 2)));
}

#[test]
fn written_bytes_are_counted() {
    let mut w = WriteCounter::new(vec![1]);
    assert_eq!(w.write(&[2, 3]), 2);
    assert_eq!(w.bytes_written(), 2);
    assert_eq!(w.into_inner(), [1, 2, 3]);
}

#[test]
fn callback_results_are_read() {
    // The status, no tag, one result: that of the sequence, which went well.
    let mut b = vec![];
    for x in [0u32, 0, 1, 11, 0] {
        put_u32(&mut b, x);
    }
    b.extend_from_slice(&[0; 32]);
    let r = read_callback_results(&mut Reader::new(&b)).unwrap();
    assert!(r.seq_ok && !r.recall_ok);
    assert_eq!(r.status, Nfs4Status::Success);
    assert!(read_callback_results(&mut Reader::new(&b[..10])).is_err());
}

fn block() -> ExtendedBlock {
    ExtendedBlock { id: 77, len: 1000, storage_type: 1 }
}

fn media() -> StorageTypes {
    StorageTypes { known: vec![0, 1, 2], disk: 2 }
}

fn worker(id: u32) -> WorkerAddress {
    WorkerAddress { worker_id: id, ip_addr: String::from("10.0.0.1") }
}

#[test]
fn block_handle_is_known_by_its_key() {
    let w = worker(3);
    let fh = encode_block_fh(&block(), Some(&w), b"key");
    assert!(is_block_fh(&fh));
    let h = decode_verified_block_fh(&fh, b"key", &media()).unwrap();
    assert_eq!((h.worker_id, h.block.id, h.block.len), (3, 77, 1000));
    assert!(decode_block_fh(&fh, &media()).is_some());
    assert!(decode_verified_block_fh(&fh, b"other", &media()).is_none());
    let mut bent = fh.data.clone();
    bent[5] ^= 1;
    assert!(decode_verified_block_fh(&Nfs4FileHandle::new(bent), b"key", &media()).is_none());
    assert!(!is_block_fh(&Nfs4FileHandle::new(vec![1, 2, 3])));
    let body = encode_block_body(3, &block());
    assert_eq!(body, fh.data[..28]);
    let tagged = tagged_block_fh(body, &[9; 32]);
    assert_eq!(tagged.data[28..], [9; 16]);
    assert_eq!(decode_tagged_block_fh(&tagged, &[9; 32], &media()).unwrap().worker_id, 3);
    assert!(decode_tagged_block_fh(&tagged, &[8; 32], &media()).is_none());
}

#[test]
fn unknown_medium_is_taken_for_the_disk() {
    let known = encode_block_fh(&block(), None, b"key");
    assert_eq!(decode_block_fh(&known, &media()).unwrap().block.storage_type, 1);
    let odd = ExtendedBlock { storage_type: 9, ..block() };
    let h = decode_block_fh(&encode_block_fh(&odd, None, b"key"), &media()).unwrap();
    assert_eq!((h.block.storage_type, h.block.id, h.worker_id), (2, 77, 0));
}

#[test]
fn block_is_read_within_its_bounds() {
    let server = PnfsDataServer::new(worker(3), b"key".to_vec(), media());
    let fh = encode_block_fh(&block(), Some(&worker(3)), b"key");
    let h = server.resolve_handle(&fh).unwrap().unwrap();
    match server.plan(&h, &Stateid4::anonymous(), 990, 100).unwrap() {
        BlockPlan::Part(r) => {
            assert_eq!((r.offset, r.len), (990, 10));
            assert!(PnfsDataServer::at_end(&r, 10));
        },
        BlockPlan::Nothing => panic!("nothing"),
    }
    assert!(matches!(
        server.plan(&h, &Stateid4::anonymous(), 1000, 1).unwrap(),
        BlockPlan::Nothing
    ));
    let some = Stateid4 { seqid: 1, other: [7; 12] };
    assert_eq!(server.plan(&h, &some, 0, 1).err().unwrap().status, Nfs4Status::BadStateid);
    assert_eq!(server.attrs(&h).size, 1000);
    let a = server.attrs_at(&h, Nfstime4 { seconds: 5, nseconds: 6 });
    assert_eq!((a.size, a.used, a.fileid, a.mode), (1000, 1024, 77, 0o444));
    assert!([a.atime, a.mtime, a.ctime].iter().all(|t| (t.seconds, t.nseconds) == (5, 6)));
    let elsewhere = encode_block_fh(&block(), Some(&worker(4)), b"key");
    assert!(server.resolve_handle(&elsewhere).is_err());
    let plain = Nfs4FileHandle::new(vec![0; 16]);
    assert!(server.resolve_handle(&plain).unwrap().is_none());
}

#[test]
fn layouts_share_their_device() {
    let mut m = PnfsManager::new();
    let blocks = || FileBlocks {
        block_locs: vec![LocatedBlock { block: block(), locs: vec![worker(3)] }],
    };
    let a = m.issue_layout(1, 50, blocks());
    let b = m.issue_layout(2, 50, blocks());
    assert!(a != b);
    let device = m.layout(&a).unwrap().deviceid;
    assert_eq!(m.layout(&b).unwrap().deviceid, device);
    assert!(m.device(&device).is_some());
    assert!(m.return_layout(&a).is_some());
    assert!(m.return_layout(&a).is_none());
    assert!(m.device(&device).is_some());
    m.release_client(2);
    assert!(m.device(&device).is_none());
    let fhs = m.block_handles(&blocks(), b"key");
    assert_eq!(fhs.len(), 1);
    let segment = encode_layout_segment(0, 1000, 1, device, 4096, &fhs).unwrap();
    assert!(!segment.is_empty());
    let addr = encode_device_addr(&blocks(), 2049).unwrap();
    let text = String::from_utf8_lossy(&addr).into_owned();
    assert!(text.contains("10.0.0.1.8.1"));
    assert!(text.contains("tcp"));
}
