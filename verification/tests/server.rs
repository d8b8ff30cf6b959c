use curvine_nfs::args::OpenHead;
use curvine_nfs::bytes::Reader;
use curvine_nfs::compound::{CompoundContext, CompoundHandler, Nfs4Op};
use curvine_nfs::delegation::{DelegationConfig, WANT_WRITE_DELEG};
use curvine_nfs::error::{FsErrorKind, Nfs4Result, Nfs4Status};
use curvine_nfs::fs::FsConfig;
use curvine_nfs::op_open::{OpenClaim, OpenRequest};
use curvine_nfs::ops::OpStep;
use curvine_nfs::request::RunStep;
use curvine_nfs::rpc::{auth_unix, opaque_auth};
use curvine_nfs::storage::{FsAnswer, FsCall, FsStep, Reply, Request};
use curvine_nfs::time::Duration;
use curvine_nfs::transaction::TransactionTracker;
use curvine_nfs::types::{FileStatus, FileType};
use curvine_nfs::wire::{Received, RpcServer};
use std::collections::BTreeMap;

// A storage that keeps everything in memory.

#[derive(Clone)]
struct Node {
    id: i64,
    kind: FileType,
    data: Vec<u8>,
    target: Option<String>,
    mode: u32,
}

struct Memory {
    nodes: BTreeMap<String, Node>,
    open: BTreeMap<u64, String>,
    next: i64,
    asked: usize,
}

fn config() -> FsConfig {
    FsConfig {
        read_only: false,
        cluster_generation: 42,
        path_cache_size: 1000,
        path_cache_ttl_secs: 600,
        file_status_cache_size: 100,
        file_status_cache_ttl_secs: 600,
        file_data_cache_size: 100,
        file_data_cache_ttl_secs: 600,
        max_cacheable_file_size: 16,
        max_read_size: 1 << 20,
        max_write_size: 1 << 20,
    }
}

impl Memory {
    fn new() -> Self {
        let mut nodes = BTreeMap::new();
        nodes.insert(
            String::from("/"),
            Node { id: 1000, kind: FileType::Dir, data: vec![], target: None, mode: 0o755 },
        );
        Memory { nodes, open: BTreeMap::new(), next: 5000, asked: 0 }
    }

    fn make(&mut self, path: String, kind: FileType, target: Option<String>) -> Reply {
        if self.nodes.contains_key(&path) {
            return Reply::Failed(FsErrorKind::FileAlreadyExists);
        }
        self.next += 1;
        let node = Node { id: self.next, kind, data: vec![], target, mode: 0o644 };
        self.nodes.insert(path, node);
        Reply::Done
    }

    fn status(path: &str, n: &Node) -> FileStatus {
        FileStatus {
            id: n.id,
            name: path.rsplit('/').next().unwrap().to_string(),
            file_type: n.kind,
            mode: n.mode,
            nlink: 1,
            owner: String::from("root"),
            group: String::from("root"),
            len: n.data.len() as i64,
            atime: 1500,
            mtime: 2500,
            target: n.target.clone(),
        }
    }

    fn opened(&mut self, handle: u64) -> Option<&mut Node> {
        let path = self.open.get(&handle)?;
        self.nodes.get_mut(path)
    }

    fn perform(&mut self, request: Request) -> Reply {
        self.asked += 1;
        let missing = Reply::Failed(FsErrorKind::FileNotFound);
        match request {
            Request::Status { path } => match self.nodes.get(&path) {
                Some(n) => Reply::Status(Self::status(&path, n)),
                None => missing,
            },
            Request::List { path } => {
                let prefix = if path == "/" { String::from("/") } else { format!("{path}/") };
                let entries = self
                    .nodes
                    .iter()
                    .filter(|(p, _)| {
                        p.len() > prefix.len()
                            && p.starts_with(&prefix)
                            && !p[prefix.len()..].contains('/')
                    })
                    .map(|(p, n)| Self::status(p, n))
                    .collect();
                Reply::Entries(entries)
            },
            Request::Create { path } => self.make(path, FileType::File, None),
            Request::MakeDir { path } => self.make(path, FileType::Dir, None),
            Request::Symlink { target, path } => self.make(path, FileType::Link, Some(target)),
            Request::Delete { path, forget } => {
                if let Some(h) = forget {
                    self.open.remove(&h);
                }
                match self.nodes.remove(&path) {
                    Some(_) => Reply::Done,
                    None => missing,
                }
            },
            Request::Rename { from, to } => match self.nodes.remove(&from) {
                Some(n) => {
                    self.nodes.insert(to.clone(), n);
                    for p in self.open.values_mut() {
                        if *p == from {
                            *p = to.clone();
                        }
                    }
                    Reply::Done
                },
                None => missing,
            },
            Request::Link { from, to } => match self.nodes.get(&from).cloned() {
                Some(n) => {
                    self.nodes.insert(to, n);
                    Reply::Done
                },
                None => missing,
            },
            Request::OpenReader { handle, path } | Request::OpenWriter { handle, path } => {
                match self.nodes.get(&path) {
                    Some(n) => {
                        let len = n.data.len() as i64;
                        self.open.insert(handle, path);
                        Reply::Length(len)
                    },
                    None => missing,
                }
            },
            Request::ReaderLen { handle } => match self.opened(handle) {
                Some(n) => Reply::Length(n.data.len() as i64),
                None => missing,
            },
            Request::ReadAt { handle, offset, count } => match self.opened(handle) {
                Some(n) => {
                    let from = (offset as usize).min(n.data.len());
                    let to = (from + count as usize).min(n.data.len());
                    Reply::Data(n.data[from..to].to_vec())
                },
                None => missing,
            },
            Request::WriterPos { handle } => match self.opened(handle) {
                Some(n) => Reply::Position(Some(n.data.len() as i64)),
                None => Reply::Position(None),
            },
            Request::WriteAt { handle, offset, data, sync } => match self.opened(handle) {
                Some(n) => {
                    let end = offset as usize + data.len();
                    if n.data.len() < end {
                        n.data.resize(end, 0);
                    }
                    n.data[offset as usize..end].copy_from_slice(&data);
                    Reply::Written { count: data.len() as u32, synced: sync }
                },
                None => missing,
            },
            Request::Extend { handle, len } | Request::Resize { handle, len } => {
                match self.opened(handle) {
                    Some(n) => {
                        n.data.resize(len as usize, 0);
                        Reply::Done
                    },
                    None => missing,
                }
            },
            Request::Flush { .. } => Reply::Done,
            Request::Close { handle } => {
                self.open.remove(&handle);
                Reply::Done
            },
            Request::Names { uid, gid } => Reply::Names {
                owner: uid.map(|u| format!("u{u}")),
                group: gid.map(|g| format!("g{g}")),
            },
            Request::SetAttr { path, mode, .. } => match self.nodes.get_mut(&path) {
                Some(n) => {
                    if let Some(m) = mode {
                        n.mode = m;
                    }
                    Reply::Done
                },
                None => missing,
            },
        }
    }
}

// Requests and replies.

fn u32b(x: u32) -> Vec<u8> {
    x.to_be_bytes().to_vec()
}

fn u64b(x: u64) -> Vec<u8> {
    x.to_be_bytes().to_vec()
}

fn opaque(b: &[u8]) -> Vec<u8> {
    let mut out = u32b(b.len() as u32);
    out.extend_from_slice(b);
    while out.len() % 4 != 0 {
        out.push(0);
    }
    out
}

fn op(code: u32, args: &[Vec<u8>]) -> Vec<u8> {
    let mut out = u32b(code);
    for a in args {
        out.extend_from_slice(a);
    }
    out
}

struct Answer {
    bytes: Vec<u8>,
    at: usize,
}

impl Answer {
    fn u32(&mut self) -> u32 {
        let b: [u8; 4] = self.bytes[self.at..self.at + 4].try_into().unwrap();
        self.at += 4;
        u32::from_be_bytes(b)
    }

    fn u64(&mut self) -> u64 {
        (self.u32() as u64) << 32 | self.u32() as u64
    }

    fn take(&mut self, n: usize) -> Vec<u8> {
        let b = self.bytes[self.at..self.at + n].to_vec();
        self.at += n;
        b
    }

    fn opaque(&mut self) -> Vec<u8> {
        let n = self.u32() as usize;
        let b = self.take(n);
        self.at = (self.at + 3) / 4 * 4;
        b
    }

    /// The head of the next result.
    fn op(&mut self, code: u32) -> Nfs4Status {
        assert_eq!(self.u32(), code);
        Nfs4Status::from(self.u32())
    }

    fn well(&mut self, code: u32) {
        assert_eq!(self.op(code), Nfs4Status::Success);
    }

    fn sequenced(&mut self) {
        self.well(SEQUENCE);
        self.take(36);
    }

    fn is_read(&self) -> bool {
        self.at == self.bytes.len()
    }
}

const ACCESS: u32 = 3;
const CLOSE: u32 = 4;
const COMMIT: u32 = 5;
const CREATE: u32 = 6;
const DELEGPURGE: u32 = 7;
const GETATTR: u32 = 9;
const GETFH: u32 = 10;
const LINK: u32 = 11;
const LOCK: u32 = 12;
const LOCKT: u32 = 13;
const LOCKU: u32 = 14;
const LOOKUP: u32 = 15;
const LOOKUPP: u32 = 16;
const NVERIFY: u32 = 17;
const OPEN: u32 = 18;
const OPEN_CONFIRM: u32 = 20;
const OPEN_DOWNGRADE: u32 = 21;
const PUTFH: u32 = 22;
const PUTROOTFH: u32 = 24;
const READ: u32 = 25;
const READDIR: u32 = 26;
const READLINK: u32 = 27;
const REMOVE: u32 = 28;
const RENAME: u32 = 29;
const RENEW: u32 = 30;
const RESTOREFH: u32 = 31;
const SAVEFH: u32 = 32;
const SECINFO: u32 = 33;
const SETATTR: u32 = 34;
const SETCLIENTID: u32 = 35;
const SETCLIENTID_CONFIRM: u32 = 36;
const VERIFY: u32 = 37;
const WRITE: u32 = 38;
const RELEASE_LOCKOWNER: u32 = 39;
const EXCHANGE_ID: u32 = 42;
const CREATE_SESSION: u32 = 43;
const DESTROY_SESSION: u32 = 44;
const SECINFO_NO_NAME: u32 = 52;
const SEQUENCE: u32 = 53;
const RECLAIM_COMPLETE: u32 = 58;

struct Server {
    rpc: RpcServer,
    storage: Memory,
    xid: u32,
    sessionid: Vec<u8>,
    seq: u32,
    clientid: u64,
    /// The numbers of the callbacks that were to be sent.
    sent: Vec<u32>,
    /// Whether callbacks get out.
    reachable: bool,
    /// How often it was waited for a place for a callback.
    waits: usize,
}

fn call_fs(handler: &mut CompoundHandler, storage: &mut Memory, call: FsCall) -> Nfs4Result<FsAnswer> {
    let mut step = handler.fs.begin(call);
    loop {
        step = match step {
            FsStep::Ask { task, request } => handler.fs.resume(task, storage.perform(request)),
            FsStep::Next { call } => handler.fs.begin(call),
            FsStep::Done { result } => return result,
        };
    }
}

impl Server {
    fn with(config: FsConfig) -> Self {
        let delegation = DelegationConfig { enabled: false, ..DelegationConfig::default() };
        Server {
            rpc: RpcServer {
                handler: CompoundHandler::new(config, delegation),
                tracker: TransactionTracker::new(Duration::from_secs(60)),
            },
            storage: Memory::new(),
            xid: 0,
            sessionid: vec![],
            seq: 0,
            clientid: 0,
            sent: vec![],
            reachable: true,
            waits: 0,
        }
    }

    fn send_raw(&mut self, xid: u32, body: &[u8]) -> Option<Vec<u8>> {
        let mut message = vec![];
        for x in [xid, 0, 2, 100003, 4, 1] {
            message.extend(u32b(x));
        }
        let mut cred = u32b(1);
        cred.extend(opaque(b"host"));
        cred.extend(u32b(1000));
        cred.extend(u32b(100));
        cred.extend(u32b(0));
        message.extend(u32b(1));
        message.extend(opaque(&cred));
        message.extend(u32b(0));
        message.extend(u32b(0));
        message.extend_from_slice(body);
        let mut step = match self.rpc.handle_rpc(&message, "client", 2049) {
            Received::Running { step, .. } => step,
            Received::Reply { bytes } => return Some(bytes),
            Received::Nothing => return None,
            Received::Failed { fault } => panic!("{fault:?}"),
            Received::Elsewhere { .. } => panic!("elsewhere"),
        };
        let bytes = loop {
            step = match step {
                RunStep::Call { run, task, call } => {
                    let answer = call_fs(&mut self.rpc.handler, &mut self.storage, call);
                    self.rpc.handler.resume_compound(run, task, answer)
                },
                RunStep::Block { .. } => panic!("block"),
                RunStep::Send { run, message } => {
                    self.sent.push(message.xid);
                    self.rpc.handler.resume_sent(run, message.xid, self.reachable)
                },
                RunStep::Wait { run, later } => {
                    self.waits += 1;
                    self.rpc.handler.resume_waited(run, later)
                },
                RunStep::Done { reply } => break reply.unwrap(),
            };
        };
        self.rpc.call_done(xid, "client");
        Some(bytes)
    }

    /// Sends a compound request; gives its status and what follows the head of the reply.
    fn send(&mut self, minor: u32, ops: &[Vec<u8>]) -> (Nfs4Status, u32, Answer) {
        self.xid += 1;
        let mut body = opaque(b"tag");
        body.extend(u32b(minor));
        body.extend(u32b(ops.len() as u32));
        for o in ops {
            body.extend_from_slice(o);
        }
        let xid = self.xid;
        let mut a = Answer { bytes: self.send_raw(xid, &body).unwrap(), at: 0 };
        assert_eq!(a.u32(), xid);
        assert_eq!((a.u32(), a.u32(), a.u32(), a.u32(), a.u32()), (1, 0, 0, 0, 0));
        let status = Nfs4Status::from(a.u32());
        assert_eq!(a.opaque(), b"tag");
        let count = a.u32();
        (status, count, a)
    }

    /// Sends operations in the session.
    fn run(&mut self, ops: &[Vec<u8>]) -> (Nfs4Status, Answer) {
        self.seq += 1;
        let mut all = vec![op(
            SEQUENCE,
            &[self.sessionid.clone(), u32b(self.seq), u32b(0), u32b(0), u32b(0)],
        )];
        all.extend_from_slice(ops);
        let (status, _, mut a) = self.send(1, &all);
        a.sequenced();
        (status, a)
    }

    fn connected(config: FsConfig) -> Self {
        let mut s = Server::with(config);
        let (st, _, mut a) = s.send(1, &[exchange(b"me", 1)]);
        assert_eq!(st, Nfs4Status::Success);
        a.well(EXCHANGE_ID);
        s.clientid = a.u64();
        let first = a.u32();
        let clientid = s.clientid;
        let (st, _, mut a) = s.send(1, &[create_session(clientid, first)]);
        assert_eq!(st, Nfs4Status::Success);
        a.well(CREATE_SESSION);
        s.sessionid = a.take(16);
        let (st, mut a) = s.run(&[op(RECLAIM_COMPLETE, &[u32b(0)])]);
        assert_eq!(st, Nfs4Status::Success);
        a.well(RECLAIM_COMPLETE);
        assert!(a.is_read());
        s
    }

    /// Opens a file in the root directory; gives its stateid and its handle.
    fn open(&mut self, name: &str, access: u32, deny: u32, owner: &[u8], make: bool) -> Result<(Vec<u8>, Vec<u8>), Nfs4Status> {
        let mut how = vec![u32b(0), u32b(access), u32b(deny), u64b(self.clientid), opaque(owner)];
        if make {
            how.extend([u32b(1), u32b(0), u32b(0), opaque(&[])]);
        } else {
            how.push(u32b(0));
        }
        how.extend([u32b(0), opaque(name.as_bytes())]);
        let (st, mut a) = self.run(&[op(PUTROOTFH, &[]), op(OPEN, &how), op(GETFH, &[])]);
        a.well(PUTROOTFH);
        if st != Nfs4Status::Success {
            assert_eq!(a.op(OPEN), st);
            return Err(st);
        }
        a.well(OPEN);
        let stateid = a.take(16);
        a.take(20);
        assert_eq!(a.u32(), 4);
        assert_eq!(a.u32(), 0);
        assert_eq!(a.u32(), 0);
        a.well(GETFH);
        let fh = a.opaque();
        assert!(a.is_read());
        Ok((stateid, fh))
    }

    fn write(&mut self, fh: &[u8], stateid: &[u8], offset: u64, data: &[u8]) -> Result<u32, Nfs4Status> {
        let (st, mut a) = self.run(&[
            op(PUTFH, &[opaque(fh)]),
            op(WRITE, &[stateid.to_vec(), u64b(offset), u32b(0), opaque(data)]),
        ]);
        a.well(PUTFH);
        if st != Nfs4Status::Success {
            assert_eq!(a.op(WRITE), st);
            return Err(st);
        }
        a.well(WRITE);
        Ok(a.u32())
    }

    fn read(&mut self, fh: &[u8], stateid: &[u8], offset: u64, count: u32) -> Result<(bool, Vec<u8>), Nfs4Status> {
        let (st, mut a) = self.run(&[
            op(PUTFH, &[opaque(fh)]),
            op(READ, &[stateid.to_vec(), u64b(offset), u32b(count)]),
        ]);
        a.well(PUTFH);
        if st != Nfs4Status::Success {
            assert_eq!(a.op(READ), st);
            return Err(st);
        }
        a.well(READ);
        let eof = a.u32() == 1;
        let data = a.opaque();
        assert!(a.is_read());
        Ok((eof, data))
    }

    fn close(&mut self, fh: &[u8], stateid: &[u8]) -> Nfs4Status {
        let (st, _) =
            self.run(&[op(PUTFH, &[opaque(fh)]), op(CLOSE, &[u32b(0), stateid.to_vec()])]);
        st
    }

    /// What is in the root directory behind a cookie, and whether there is no more.
    fn list(&mut self, cookie: u64, dircount: u32) -> (Vec<(u64, String)>, bool) {
        let (st, mut a) = self.run(&[
            op(PUTROOTFH, &[]),
            op(READDIR, &[u64b(cookie), u64b(0), u32b(dircount), u32b(1 << 16), u32b(0)]),
        ]);
        assert_eq!(st, Nfs4Status::Success);
        a.well(PUTROOTFH);
        a.well(READDIR);
        a.take(8);
        let mut out = vec![];
        while a.u32() == 1 {
            let cookie = a.u64();
            let name = String::from_utf8(a.opaque()).unwrap();
            assert_eq!((a.u32(), a.u32()), (1, 0));
            assert_eq!(a.opaque(), b"");
            out.push((cookie, name));
        }
        let end = a.u32() == 1;
        assert!(a.is_read());
        (out, end)
    }
}

fn exchange(owner: &[u8], verifier: u8) -> Vec<u8> {
    op(EXCHANGE_ID, &[vec![verifier; 8], opaque(owner), u32b(0), u32b(0), u32b(0)])
}

fn create_session(clientid: u64, seqid: u32) -> Vec<u8> {
    let channel = [u32b(0), u32b(1 << 20), u32b(1 << 20), u32b(4096), u32b(16), u32b(8), u32b(0)];
    let mut args = vec![u64b(clientid), u32b(seqid), u32b(0)];
    args.extend_from_slice(&channel);
    args.extend_from_slice(&channel);
    args.extend([u32b(0x4000_0000), u32b(0)]);
    op(CREATE_SESSION, &args)
}

// The tests.

#[test]
fn file_is_written_and_read_back() {
    let mut s = Server::connected(config());
    let (stateid, fh) = s.open("a.txt", 3, 0, b"o", true).unwrap();
    assert_eq!(s.write(&fh, &stateid, 0, b"hello world").unwrap(), 11);
    assert_eq!(s.read(&fh, &stateid, 0, 5).unwrap(), (false, b"hello".to_vec()));
    assert_eq!(s.read(&fh, &stateid, 6, 100).unwrap(), (true, b"world".to_vec()));
    assert_eq!(s.read(&fh, &stateid, 11, 1).unwrap(), (true, vec![]));
    assert_eq!(s.close(&fh, &stateid), Nfs4Status::Success);
    assert_eq!(s.storage.nodes["/a.txt"].data, b"hello world");
    assert!(s.storage.open.is_empty());
}

#[test]
fn closed_file_goes_by_no_state() {
    let mut s = Server::connected(config());
    let (stateid, fh) = s.open("f", 3, 0, b"o", true).unwrap();
    assert_eq!(s.close(&fh, &stateid), Nfs4Status::Success);
    assert_eq!(s.write(&fh, &stateid, 0, b"x").unwrap_err(), Nfs4Status::BadStateid);
    assert_eq!(s.close(&fh, &stateid), Nfs4Status::BadStateid);
}

#[test]
fn shares_are_kept() {
    let mut s = Server::connected(config());
    // Deny nobody but writers.
    s.open("f", 1, 2, b"one", true).unwrap();
    let (st, _, mut a) = s.send(1, &[exchange(b"other", 1)]);
    assert_eq!(st, Nfs4Status::Success);
    a.well(EXCHANGE_ID);
    let other = a.u64();
    s.clientid = other;
    // The other client has not said that it takes nothing back.
    assert_eq!(s.open("f", 2, 0, b"two", false).unwrap_err(), Nfs4Status::Grace);
}

#[test]
fn file_opened_for_reading_is_not_written() {
    let mut s = Server::connected(config());
    let (w, fh) = s.open("f", 2, 0, b"w", true).unwrap();
    assert_eq!(s.close(&fh, &w), Nfs4Status::Success);
    let (r, fh) = s.open("f", 1, 0, b"r", false).unwrap();
    assert_eq!(s.write(&fh, &r, 0, b"x").unwrap_err(), Nfs4Status::Openmode);
}

#[test]
fn directory_is_listed_in_parts() {
    let mut s = Server::connected(config());
    let names: Vec<String> = (10..50).map(|i| format!("f{i}")).collect();
    for n in &names {
        let (stateid, fh) = s.open(n, 3, 0, b"o", true).unwrap();
        s.close(&fh, &stateid);
    }
    let (all, end) = s.list(0, 4096);
    assert!(end);
    assert_eq!(all.iter().map(|e| e.1.clone()).collect::<Vec<String>>(), names);
    let (rest, end) = s.list(all[1].0, 4096);
    assert!(end);
    assert_eq!(rest, all[2..]);
    let mut seen = vec![];
    let mut cookie = 0;
    loop {
        let (part, end) = s.list(cookie, 64);
        assert!(part.len() <= 16);
        assert_eq!(part.len() < 16, end);
        seen.extend(part);
        if end {
            break;
        }
        cookie = seen.last().unwrap().0;
    }
    assert_eq!(seen, all);
    let (st, _) = s.run(&[
        op(PUTROOTFH, &[]),
        op(READDIR, &[u64b(1), u64b(0), u32b(0), u32b(4096), u32b(0)]),
    ]);
    assert_eq!(st, Nfs4Status::BadCookie);
}

#[test]
fn names_are_looked_up() {
    let mut s = Server::connected(config());
    let fattr = [u32b(0), opaque(&[])].concat();
    let (st, mut a) = s.run(&[
        op(PUTROOTFH, &[]),
        op(CREATE, &[u32b(2), opaque(b"dir"), fattr.clone()]),
        op(GETFH, &[]),
    ]);
    assert_eq!(st, Nfs4Status::Success);
    a.well(PUTROOTFH);
    a.well(CREATE);
    assert_eq!(a.u32(), 1);
    a.take(16);
    assert_eq!(a.u32(), 0);
    a.well(GETFH);
    let made = a.opaque();
    let (st, mut a) = s.run(&[
        op(PUTROOTFH, &[]),
        op(LOOKUP, &[opaque(b"dir")]),
        op(GETFH, &[]),
        op(LOOKUPP, &[]),
        op(GETFH, &[]),
        op(PUTROOTFH, &[]),
        op(GETFH, &[]),
    ]);
    assert_eq!(st, Nfs4Status::Success);
    a.well(PUTROOTFH);
    a.well(LOOKUP);
    a.well(GETFH);
    assert_eq!(a.opaque(), made);
    a.well(LOOKUPP);
    a.well(GETFH);
    let parent = a.opaque();
    a.well(PUTROOTFH);
    a.well(GETFH);
    assert_eq!(a.opaque(), parent);
    let (st, mut a) = s.run(&[op(PUTROOTFH, &[]), op(LOOKUP, &[opaque(b"none")])]);
    assert_eq!(st, Nfs4Status::Noent);
    a.well(PUTROOTFH);
    assert_eq!(a.op(LOOKUP), Nfs4Status::Noent);
    assert!(a.is_read());
    let (st, _) = s.run(&[op(PUTROOTFH, &[]), op(LOOKUP, &[opaque(b"a\xff")])]);
    assert_ne!(st, Nfs4Status::Success);
}

#[test]
fn operations_stop_at_the_first_that_fails() {
    let mut s = Server::connected(config());
    let (st, mut a) = s.run(&[
        op(GETFH, &[]),
        op(PUTROOTFH, &[]),
        op(CREATE, &[u32b(2), opaque(b"dir"), u32b(0), opaque(&[])]),
    ]);
    assert_eq!(st, Nfs4Status::Nofilehandle);
    assert_eq!(a.op(GETFH), Nfs4Status::Nofilehandle);
    assert!(a.is_read());
    assert!(!s.storage.nodes.contains_key("/dir"));
}

#[test]
fn handle_is_put_aside_and_taken_back() {
    let mut s = Server::connected(config());
    let (_, fh) = s.open("f", 3, 0, b"o", true).unwrap();
    let (st, mut a) = s.run(&[
        op(PUTFH, &[opaque(&fh)]),
        op(SAVEFH, &[]),
        op(PUTROOTFH, &[]),
        op(RESTOREFH, &[]),
        op(GETFH, &[]),
        op(RESTOREFH, &[]),
    ]);
    assert_eq!(st, Nfs4Status::Restorefh);
    for o in [PUTFH, SAVEFH, PUTROOTFH, RESTOREFH, GETFH] {
        a.well(o);
    }
    assert_eq!(a.opaque(), fh);
    assert_eq!(a.op(RESTOREFH), Nfs4Status::Restorefh);
    let (st, _) = s.run(&[op(PUTFH, &[opaque(b"nonsense")])]);
    assert_eq!(st, Nfs4Status::Badhandle);
}

#[test]
fn handle_of_another_cluster_is_stale() {
    let mut s = Server::connected(config());
    let (_, fh) = s.open("f", 3, 0, b"o", true).unwrap();
    let mut t = Server::connected(FsConfig { cluster_generation: 43, ..config() });
    let (st, _) = t.run(&[op(PUTFH, &[opaque(&fh)])]);
    assert_eq!(st, Nfs4Status::Stale);
}

#[test]
fn file_is_renamed_and_removed() {
    let mut s = Server::connected(config());
    let (stateid, fh) = s.open("old", 3, 0, b"o", true).unwrap();
    s.write(&fh, &stateid, 0, b"abc").unwrap();
    s.close(&fh, &stateid);
    let (st, _) = s.run(&[
        op(PUTROOTFH, &[]),
        op(SAVEFH, &[]),
        op(PUTROOTFH, &[]),
        op(RENAME, &[opaque(b"old"), opaque(b"new")]),
    ]);
    assert_eq!(st, Nfs4Status::Success);
    assert!(s.storage.nodes.contains_key("/new"));
    let (stateid, fh) = s.open("new", 1, 0, b"o", false).unwrap();
    assert_eq!(s.read(&fh, &stateid, 0, 10).unwrap(), (true, b"abc".to_vec()));
    s.close(&fh, &stateid);
    let (st, _) = s.run(&[op(PUTROOTFH, &[]), op(REMOVE, &[opaque(b"new")])]);
    assert_eq!(st, Nfs4Status::Success);
    assert_eq!(s.open("new", 1, 0, b"o", false).unwrap_err(), Nfs4Status::Noent);
}

#[test]
fn symbolic_link_tells_where_it_points() {
    let mut s = Server::connected(config());
    let (st, _) = s.run(&[
        op(PUTROOTFH, &[]),
        op(CREATE, &[u32b(5), opaque(b"/else/where"), opaque(b"l"), u32b(0), opaque(&[])]),
    ]);
    assert_eq!(st, Nfs4Status::Success);
    let (st, mut a) =
        s.run(&[op(PUTROOTFH, &[]), op(LOOKUP, &[opaque(b"l")]), op(READLINK, &[])]);
    assert_eq!(st, Nfs4Status::Success);
    a.well(PUTROOTFH);
    a.well(LOOKUP);
    a.well(READLINK);
    assert_eq!(a.opaque(), b"/else/where");
    let (_, fh) = s.open("f", 1, 0, b"o", true).unwrap();
    let (st, _) = s.run(&[op(PUTFH, &[opaque(&fh)]), op(READLINK, &[])]);
    assert_eq!(st, Nfs4Status::Inval);
}

#[test]
fn attributes_are_told_and_set() {
    let mut s = Server::connected(config());
    let (stateid, fh) = s.open("f", 3, 0, b"o", true).unwrap();
    s.write(&fh, &stateid, 0, b"12345").unwrap();
    // The kind and the size.
    let ask = op(GETATTR, &[u32b(1), u32b(1 << 1 | 1 << 4)]);
    let (st, mut a) = s.run(&[op(PUTFH, &[opaque(&fh)]), ask.clone()]);
    assert_eq!(st, Nfs4Status::Success);
    a.well(PUTFH);
    a.well(GETATTR);
    assert_eq!((a.u32(), a.u32()), (1, 1 << 1 | 1 << 4));
    assert_eq!((a.u32(), a.u32(), a.u64()), (12, 1, 5));
    // A new size.
    let set = op(SETATTR, &[stateid.clone(), u32b(1), u32b(1 << 4), opaque(&u64b(2))]);
    let (st, mut a) = s.run(&[op(PUTFH, &[opaque(&fh)]), set, ask]);
    assert_eq!(st, Nfs4Status::Success);
    a.well(PUTFH);
    a.well(SETATTR);
    assert_eq!((a.u32(), a.u32()), (1, 1 << 4));
    a.well(GETATTR);
    a.take(8);
    assert_eq!((a.u32(), a.u32(), a.u64()), (12, 1, 2));
    assert_eq!(s.storage.nodes["/f"].data, b"12");
}

#[test]
fn access_is_told() {
    let mut s = Server::connected(config());
    let (st, mut a) = s.run(&[op(PUTROOTFH, &[]), op(ACCESS, &[u32b(0x3f)])]);
    assert_eq!(st, Nfs4Status::Success);
    a.well(PUTROOTFH);
    a.well(ACCESS);
    let supported = a.u32();
    let granted = a.u32();
    assert_eq!(granted & !supported, 0);
    assert_ne!(granted & 2, 0);
}

#[test]
fn ranges_are_locked_and_unlocked() {
    let mut s = Server::connected(config());
    let (stateid, fh) = s.open("f", 3, 0, b"o", true).unwrap();
    let me = s.clientid;
    let lock = |owner: &[u8], kind: u32, from: u64, len: u64| {
        op(
            LOCK,
            &[
                u32b(kind),
                u32b(0),
                u64b(from),
                u64b(len),
                u32b(1),
                u32b(0),
                stateid.clone(),
                u32b(0),
                u64b(me),
                opaque(owner),
            ],
        )
    };
    let test = |owner: &[u8], kind: u32, from: u64, len: u64| {
        op(LOCKT, &[u32b(kind), u64b(from), u64b(len), u64b(me), opaque(owner)])
    };
    let (st, mut a) = s.run(&[op(PUTFH, &[opaque(&fh)]), lock(b"p", 2, 10, 20)]);
    assert_eq!(st, Nfs4Status::Success);
    a.well(PUTFH);
    a.well(LOCK);
    let held = a.take(16);
    let put = op(PUTFH, &[opaque(&fh)]);
    assert_eq!(s.run(&[put.clone(), test(b"q", 1, 29, 1)]).0, Nfs4Status::Denied);
    assert_eq!(s.run(&[put.clone(), test(b"q", 1, 30, 5)]).0, Nfs4Status::Success);
    assert_eq!(s.run(&[put.clone(), test(b"p", 1, 10, 5)]).0, Nfs4Status::Success);
    assert_eq!(s.run(&[put.clone(), lock(b"q", 2, 0, 11)]).0, Nfs4Status::Denied);
    assert_eq!(s.run(&[put.clone(), lock(b"q", 2, 0, 0)]).0, Nfs4Status::Inval);
    // The middle of it is given back.
    let unlock = op(LOCKU, &[u32b(2), u32b(0), held, u64b(15), u64b(5)]);
    assert_eq!(s.run(&[put.clone(), unlock]).0, Nfs4Status::Success);
    assert_eq!(s.run(&[put.clone(), test(b"q", 2, 15, 5)]).0, Nfs4Status::Success);
    assert_eq!(s.run(&[put.clone(), test(b"q", 2, 14, 1)]).0, Nfs4Status::Denied);
    assert_eq!(s.run(&[put.clone(), test(b"q", 2, 20, 1)]).0, Nfs4Status::Denied);
    // Closing the file gives back the rest.
    assert_eq!(s.close(&fh, &stateid), Nfs4Status::Success);
    assert_eq!(s.run(&[put, test(b"q", 2, 14, 1)]).0, Nfs4Status::Success);
}

#[test]
fn session_is_made_once() {
    let mut s = Server::with(config());
    let (_, _, mut a) = s.send(1, &[exchange(b"me", 1)]);
    a.well(EXCHANGE_ID);
    let clientid = a.u64();
    let first = a.u32();
    let (_, _, a) = s.send(1, &[create_session(clientid, first)]);
    let (_, _, b) = s.send(1, &[create_session(clientid, first)]);
    assert_eq!(a.bytes[a.at..], b.bytes[b.at..]);
    assert_eq!(s.rpc.handler.sessions.sessions.len(), 1);
    let (st, _, _) = s.send(1, &[create_session(clientid, first + 5)]);
    assert_eq!(st, Nfs4Status::SeqMisordered);
    let (st, _, _) = s.send(1, &[create_session(clientid + 1, first)]);
    assert_eq!(st, Nfs4Status::StaleClientid);
}

#[test]
fn operations_need_a_session() {
    let mut s = Server::with(config());
    let h = &s.rpc.handler;
    let mut ctx = CompoundContext::with_minor_version(1);
    let fault = h.check_sequence(&ctx, Nfs4Op::Read).err().unwrap();
    assert_eq!(fault.status, Nfs4Status::OpNotInSession);
    assert!(h.check_sequence(&ctx, Nfs4Op::ExchangeId).is_ok());
    assert!(h.check_sequence(&CompoundContext::with_minor_version(0), Nfs4Op::Read).is_ok());
    ctx.sessionid = Some([1; 16]);
    assert!(h.check_sequence(&ctx, Nfs4Op::Read).is_ok());
    let (st, n, _) = s.send(9, &[op(PUTROOTFH, &[])]);
    assert_eq!(st, Nfs4Status::MinorVersMismatch);
    assert_eq!(n, 0);
}

#[test]
fn call_sent_again_is_not_run_again() {
    let mut s = Server::with(config());
    let mut body = opaque(b"tag");
    body.extend(u32b(1));
    body.extend(u32b(1));
    body.extend(exchange(b"me", 1));
    assert!(s.send_raw(77, &body).is_some());
    assert!(s.send_raw(77, &body).is_none());
}

#[test]
fn read_only_server_changes_nothing() {
    let mut s = Server::connected(FsConfig { read_only: true, ..config() });
    let (st, _) = s.run(&[
        op(PUTROOTFH, &[]),
        op(CREATE, &[u32b(2), opaque(b"d"), u32b(0), opaque(&[])]),
    ]);
    assert_eq!(st, Nfs4Status::Rofs);
    assert_eq!(s.open("f", 2, 0, b"o", true).unwrap_err(), Nfs4Status::Rofs);
    let before = s.storage.asked;
    let step = s.rpc.handler.fs.mkdir(1000, "x");
    assert!(matches!(step, FsStep::Done { result: Err(e) } if e.status == Nfs4Status::Rofs));
    assert_eq!(s.storage.asked, before);
    assert_eq!(s.storage.nodes.len(), 1);
}

#[test]
fn small_file_is_remembered_until_it_is_written() {
    let mut s = Server::connected(config());
    let (stateid, fh) = s.open("f", 3, 0, b"o", true).unwrap();
    s.write(&fh, &stateid, 0, b"abcd").unwrap();
    assert_eq!(s.read(&fh, &stateid, 0, 100).unwrap(), (true, b"abcd".to_vec()));
    s.write(&fh, &stateid, 1, b"X").unwrap();
    assert_eq!(s.read(&fh, &stateid, 0, 100).unwrap(), (true, b"aXcd".to_vec()));
    let (st, mut a) = s.run(&[op(PUTFH, &[opaque(&fh)]), op(COMMIT, &[u64b(0), u32b(0)])]);
    assert_eq!(st, Nfs4Status::Success);
    a.well(PUTFH);
    a.well(COMMIT);
    assert_eq!(a.take(8).len(), 8);
}

#[test]
fn unreadable_request_has_no_reply() {
    let mut s = Server::with(config());
    let short = [0u8, 0, 0, 9];
    let step = s.rpc.handler.handle_compound(5, Reader::new(&short), auth_unix::default());
    assert!(matches!(step, RunStep::Done { reply: Err(_) }));
}

#[test]
fn clients_without_sessions_are_served() {
    let mut s = Server::with(config());
    let set = |verifier: u8| {
        op(
            SETCLIENTID,
            &[
                vec![verifier; 8],
                opaque(b"old client"),
                u32b(0x4000_0000),
                opaque(b"tcp"),
                opaque(b"1.2.3.4.5.6"),
                u32b(1),
            ],
        )
    };
    let (st, _, mut a) = s.send(0, &[set(1)]);
    assert_eq!(st, Nfs4Status::Success);
    a.well(SETCLIENTID);
    let c = a.u64();
    let proof = a.take(8);
    let (st, _, _) = s.send(0, &[op(SETCLIENTID_CONFIRM, &[u64b(c), proof.clone()])]);
    assert_eq!(st, Nfs4Status::Success);
    let (st, _, _) = s.send(0, &[op(SETCLIENTID_CONFIRM, &[u64b(c + 1), proof])]);
    assert_eq!(st, Nfs4Status::StaleClientid);
    // The same client keeps its id, and one that started anew does not.
    let (_, _, mut a) = s.send(0, &[set(1)]);
    a.well(SETCLIENTID);
    assert_eq!(a.u64(), c);
    assert_eq!(s.send(0, &[op(RENEW, &[u64b(c)])]).0, Nfs4Status::Success);
    assert_eq!(s.send(0, &[op(RENEW, &[u64b(c + 9)])]).0, Nfs4Status::StaleClientid);

    // A file is opened, and the open is confirmed.
    let open = op(
        OPEN,
        &[
            u32b(0),
            u32b(3),
            u32b(0),
            u64b(c),
            opaque(b"owner"),
            u32b(1),
            u32b(1),
            u32b(0),
            opaque(&[]),
            u32b(0),
            opaque(b"f"),
        ],
    );
    let (st, _, mut a) = s.send(0, &[op(PUTROOTFH, &[]), open, op(GETFH, &[])]);
    assert_eq!(st, Nfs4Status::Success);
    a.well(PUTROOTFH);
    a.well(OPEN);
    let stateid = a.take(16);
    a.take(20);
    assert_eq!((a.u32(), a.u32(), a.u32()), (6, 0, 0));
    a.well(GETFH);
    let fh = a.opaque();
    let put = op(PUTFH, &[opaque(&fh)]);
    let confirm = op(OPEN_CONFIRM, &[stateid.clone(), u32b(0)]);
    let (st, _, mut a) = s.send(0, &[put.clone(), confirm.clone()]);
    assert_eq!(st, Nfs4Status::Success);
    a.well(PUTFH);
    a.well(OPEN_CONFIRM);
    let confirmed = a.take(16);
    assert_eq!(confirmed[4..], stateid[4..]);
    assert_ne!(confirmed[..4], stateid[..4]);
    assert_eq!(s.send(0, &[put.clone(), confirm.clone()]).0, Nfs4Status::BadStateid);
    assert_eq!(s.send(1, &[put.clone(), confirm]).0, Nfs4Status::Notsupp);

    // Part of it is given up, and then the rest.
    let less = op(OPEN_DOWNGRADE, &[confirmed.clone(), u32b(0), u32b(1), u32b(0)]);
    let (st, _, mut a) = s.send(0, &[put.clone(), less.clone()]);
    assert_eq!(st, Nfs4Status::Success);
    a.well(PUTFH);
    a.well(OPEN_DOWNGRADE);
    let left = a.take(16);
    assert_eq!(s.send(0, &[put.clone(), less]).0, Nfs4Status::OldStateid);
    let more = op(OPEN_DOWNGRADE, &[left.clone(), u32b(0), u32b(2), u32b(0)]);
    assert_eq!(s.send(0, &[put.clone(), more]).0, Nfs4Status::Inval);
    let write = op(WRITE, &[left.clone(), u64b(0), u32b(0), opaque(b"x")]);
    assert_eq!(s.send(0, &[put.clone(), write]).0, Nfs4Status::Openmode);
    let (st, _, mut a) = s.send(0, &[put, op(CLOSE, &[u32b(0), left.clone()])]);
    assert_eq!(st, Nfs4Status::Success);
    a.well(PUTFH);
    a.well(CLOSE);
    assert_eq!(a.u32(), u32::from_be_bytes([left[0], left[1], left[2], left[3]]) + 1);
    assert_eq!(a.take(12), left[4..]);
}

#[test]
fn files_are_linked_and_compared() {
    let mut s = Server::connected(config());
    let (_, fh) = s.open("f", 3, 0, b"o", true).unwrap();
    let put = op(PUTFH, &[opaque(&fh)]);
    let (st, mut a) =
        s.run(&[put.clone(), op(SAVEFH, &[]), op(PUTROOTFH, &[]), op(LINK, &[opaque(b"g")])]);
    assert_eq!(st, Nfs4Status::Success);
    a.well(PUTFH);
    a.well(SAVEFH);
    a.well(PUTROOTFH);
    a.well(LINK);
    a.take(20);
    assert!(a.is_read());
    assert!(s.storage.nodes.contains_key("/g"));
    let fattr = [u32b(0), opaque(&[])];
    assert_eq!(s.run(&[put.clone(), op(VERIFY, &fattr)]).0, Nfs4Status::Success);
    assert_eq!(s.run(&[put.clone(), op(NVERIFY, &fattr)]).0, Nfs4Status::Same);
    let (st, mut a) = s.run(&[op(PUTROOTFH, &[]), op(SECINFO, &[opaque(b"f")])]);
    assert_eq!(st, Nfs4Status::Success);
    a.well(PUTROOTFH);
    a.well(SECINFO);
    assert!(!a.is_read());
    let (st, _) = s.run(&[op(DELEGPURGE, &[u64b(0)])]);
    assert_eq!(st, Nfs4Status::Notsupp);
}

#[test]
fn ended_session_is_not_known() {
    let mut s = Server::connected(config());
    let id = s.sessionid.clone();
    assert_eq!(s.send(1, &[op(DESTROY_SESSION, &[id.clone()])]).0, Nfs4Status::Success);
    assert_eq!(s.send(1, &[op(DESTROY_SESSION, &[id.clone()])]).0, Nfs4Status::BadSession);
    let again = op(SEQUENCE, &[id, u32b(2), u32b(0), u32b(0), u32b(0)]);
    assert_eq!(s.send(1, &[again]).0, Nfs4Status::BadSession);
    let too_many: Vec<Vec<u8>> = (0..65).map(|_| op(PUTROOTFH, &[])).collect();
    let (st, n, _) = s.send(1, &too_many);
    assert_eq!(st, Nfs4Status::TooManyOps);
    assert_eq!(n, 0);
}

#[test]
fn lock_owner_is_released() {
    let mut s = Server::connected(config());
    let (stateid, fh) = s.open("f", 3, 0, b"o", true).unwrap();
    let me = s.clientid;
    let put = op(PUTFH, &[opaque(&fh)]);
    let lock = op(
        LOCK,
        &[
            u32b(2),
            u32b(0),
            u64b(0),
            u64b(u64::MAX),
            u32b(1),
            u32b(0),
            stateid,
            u32b(0),
            u64b(me),
            opaque(b"p"),
        ],
    );
    assert_eq!(s.run(&[put.clone(), lock]).0, Nfs4Status::Success);
    let test = op(LOCKT, &[u32b(1), u64b(7), u64b(1), u64b(me), opaque(b"q")]);
    assert_eq!(s.run(&[put.clone(), test.clone()]).0, Nfs4Status::Denied);
    let release = op(RELEASE_LOCKOWNER, &[u64b(me), opaque(b"p")]);
    assert_eq!(s.run(&[release]).0, Nfs4Status::Success);
    assert_eq!(s.run(&[put, test]).0, Nfs4Status::Success);
}

#[test]
fn repeated_request_is_answered_alike() {
    let mut s = Server::connected(config());
    let (stateid, fh) = s.open("f", 3, 0, b"o", true).unwrap();
    s.close(&fh, &stateid);
    s.seq += 1;
    let again = [
        op(SEQUENCE, &[s.sessionid.clone(), u32b(s.seq), u32b(0), u32b(0), u32b(0)]),
        op(PUTROOTFH, &[]),
        op(REMOVE, &[opaque(b"f")]),
    ];
    let (st, n, a) = s.send(1, &again);
    assert_eq!((st, n), (Nfs4Status::Success, 3));
    let asked = s.storage.asked;
    let (st, n, b) = s.send(1, &again);
    assert_eq!((st, n), (Nfs4Status::Success, 3));
    // All but the number of the call is the same, and the storage was not asked.
    assert_eq!(a.bytes[4..], b.bytes[4..]);
    assert_eq!(s.storage.asked, asked);
    // The next request is run.
    assert_eq!(
        s.run(&[op(PUTROOTFH, &[]), op(REMOVE, &[opaque(b"f")])]).0,
        Nfs4Status::Noent
    );
}

#[test]
fn what_follows_a_failure_is_passed_over() {
    let mut s = Server::connected(config());
    let me = u64b(s.clientid);
    let open = op(
        OPEN,
        &[
            u32b(0),
            u32b(1),
            u32b(0),
            me.clone(),
            opaque(b"owner"),
            u32b(1),
            u32b(0),
            u32b(1),
            u32b(16),
            opaque(&u64b(0)),
            u32b(0),
            opaque(b"name"),
        ],
    );
    let lock = |new: u32, locker: Vec<u8>| {
        op(LOCK, &[u32b(1), u32b(0), u64b(0), u64b(1), u32b(new), locker])
    };
    let by_open = [u32b(0), vec![3; 16], u32b(0), me.clone(), opaque(b"p")].concat();
    let by_lock = [vec![4; 16], u32b(0)].concat();
    let rest = [
        open,
        lock(1, by_open),
        lock(0, by_lock),
        op(LOCKT, &[u32b(1), u64b(0), u64b(1), me.clone(), opaque(b"p")]),
        op(LOCKU, &[u32b(1), u32b(0), vec![4; 16], u64b(0), u64b(1)]),
        exchange(b"else", 1),
        create_session(7, 1),
        op(DESTROY_SESSION, &[vec![5; 16]]),
        op(SECINFO_NO_NAME, &[u32b(0)]),
        op(PUTROOTFH, &[]),
    ];
    let mut ops = vec![op(GETFH, &[])];
    ops.extend_from_slice(&rest);
    let (st, mut a) = s.run(&ops);
    assert_eq!(st, Nfs4Status::Nofilehandle);
    assert_eq!(a.op(GETFH), Nfs4Status::Nofilehandle);
    assert!(a.is_read());
    // One of them without its end cannot be read.
    s.seq += 1;
    let mut body = opaque(b"tag");
    body.extend(u32b(1));
    body.extend(u32b(3));
    body.extend(op(
        SEQUENCE,
        &[s.sessionid.clone(), u32b(s.seq), u32b(0), u32b(0), u32b(0)],
    ));
    body.extend(op(GETFH, &[]));
    body.extend_from_slice(&rest[0][..rest[0].len() - 4]);
    let auth = auth_unix::default();
    let step = s.rpc.handler.handle_compound(9, Reader::new(&body), auth);
    assert!(matches!(step, RunStep::Done { reply: Err(_) }));
}

#[test]
fn file_is_compared_with_what_a_client_has() {
    let mut s = Server::connected(config());
    let (stateid, fh) = s.open("f", 3, 0, b"o", true).unwrap();
    s.write(&fh, &stateid, 0, b"12345").unwrap();
    assert_eq!(s.close(&fh, &stateid), Nfs4Status::Success);
    let put = op(PUTFH, &[opaque(&fh)]);
    let has = |size: u64| [u32b(1), u32b(1 << 1 | 1 << 4), opaque(&[u32b(1), u64b(size)].concat())];
    assert_eq!(s.run(&[put.clone(), op(VERIFY, &has(5))]).0, Nfs4Status::Success);
    assert_eq!(s.run(&[put.clone(), op(NVERIFY, &has(5))]).0, Nfs4Status::Same);
    assert_eq!(s.run(&[put.clone(), op(VERIFY, &has(6))]).0, Nfs4Status::NotSame);
    assert_eq!(s.run(&[put.clone(), op(NVERIFY, &has(6))]).0, Nfs4Status::Success);
    // Its own handle.
    let own = [u32b(1), u32b(1 << 19), opaque(&opaque(&fh))];
    assert_eq!(s.run(&[put, op(VERIFY, &own)]).0, Nfs4Status::Success);
}

#[test]
fn listing_without_room_goes_on() {
    let mut s = Server::connected(config());
    for i in 0..5 {
        let (stateid, fh) = s.open(&format!("f{i}"), 3, 0, b"o", true).unwrap();
        s.close(&fh, &stateid);
    }
    let mut seen = 0;
    let mut cookie = 0;
    let mut rounds = 0;
    loop {
        let (st, mut a) = s.run(&[
            op(PUTROOTFH, &[]),
            op(READDIR, &[u64b(cookie), u64b(0), u32b(4096), u32b(180), u32b(0)]),
        ]);
        assert_eq!(st, Nfs4Status::Success);
        a.well(PUTROOTFH);
        a.well(READDIR);
        a.take(8);
        while a.u32() == 1 {
            cookie = a.u64();
            assert_eq!(a.opaque(), format!("f{seen}").as_bytes());
            assert_eq!((a.u32(), a.u32(), a.u32()), (1, 0, 0));
            seen += 1;
        }
        rounds += 1;
        let end = a.u32() == 1;
        assert!(a.is_read());
        assert_eq!(end, seen == 5);
        if end {
            break;
        }
        assert!(rounds < 10);
    }
    assert!(rounds > 1);
    // Where nothing has room, that is not the end.
    let (_, mut a) = s.run(&[
        op(PUTROOTFH, &[]),
        op(READDIR, &[u64b(0), u64b(0), u32b(4096), u32b(0), u32b(0)]),
    ]);
    a.well(PUTROOTFH);
    a.well(READDIR);
    a.take(8);
    assert_eq!((a.u32(), a.u32()), (0, 0));
}

#[test]
fn operations_fail_only_for_want_of_their_own_numbers() {
    let mut s = Server::connected(config());
    let (stateid, fh) = s.open("f", 3, 0, b"o", true).unwrap();
    s.write(&fh, &stateid, 0, b"abc").unwrap();
    s.rpc.handler.sessions.next_session_id = u64::MAX;
    s.rpc.handler.clients.next_clientid = 0x1_0000_0000;
    s.rpc.handler.locks.next_stateid = u32::MAX;
    assert_eq!(s.read(&fh, &stateid, 0, 2).unwrap(), (false, b"ab".to_vec()));
    // A client that is known needs no number, and a new one gets none.
    let (st, _, mut a) = s.send(1, &[exchange(b"me", 1)]);
    assert_eq!(st, Nfs4Status::Success);
    a.well(EXCHANGE_ID);
    assert_eq!(a.u64(), s.clientid);
    assert_eq!(s.send(1, &[exchange(b"new", 1)]).0, Nfs4Status::Serverfault);
    assert_eq!(s.send(1, &[exchange(b"me", 2)]).0, Nfs4Status::Serverfault);
    assert!(s.rpc.handler.clients.get_client(s.clientid).is_some());
    let me = s.clientid;
    assert_eq!(s.send(1, &[create_session(me, 2)]).0, Nfs4Status::Serverfault);
    assert!(s.open("g", 3, 0, b"o", true).is_ok());
    s.rpc.handler.opens.next_stateid = u32::MAX;
    assert_eq!(s.open("h", 3, 0, b"o", true).unwrap_err(), Nfs4Status::Serverfault);
    assert_eq!(s.close(&fh, &stateid), Nfs4Status::Success);
}

#[test]
fn file_is_opened_by_the_path_that_was_found() {
    let mut s = Server::connected(config());
    let request = || OpenRequest {
        head: OpenHead {
            seqid: 0,
            share_access: 1,
            share_deny: 0,
            clientid: s.clientid,
            owner: b"o".to_vec(),
            opentype: 0,
        },
        attrs: None,
        claim: OpenClaim::Null(b"f".to_vec()),
    };
    let (first, second) = (request(), request());
    let h = &mut s.rpc.handler;
    match h.open_at(first, 1, 0, 77, false, None) {
        OpStep::Done { result: Err(e) } => assert_eq!(e.status, Nfs4Status::Stale),
        _ => panic!("not refused"),
    }
    assert!(h.opens.get_client_opens(s.clientid).is_empty());
    match h.open_at(second, 1, 0, 77, false, Some(String::from("/f"))) {
        OpStep::Call { .. } => (),
        _ => panic!("not opened"),
    }
    assert_eq!(h.opens.get_client_opens(s.clientid).len(), 1);
}

#[test]
fn unnamed_caller_is_the_superuser() {
    let mut s = Server::with(config());
    let mut message = vec![];
    // A call of the mount protocol, without a credential.
    for x in [5, 0, 2, 100005, 3, 0, 0, 0, 0, 0] {
        message.extend(u32b(x));
    }
    match s.rpc.handle_rpc(&message, "client", 2049) {
        Received::Elsewhere { xid, auth, .. } => {
            assert_eq!((xid, auth.stamp, auth.uid, auth.gid), (5, 0, 0, 0));
            assert!(auth.machinename.is_empty() && auth.gids.is_empty());
        },
        _ => panic!("not elsewhere"),
    }
}

/// A server at which another client holds a delegation of the file "f".
fn with_delegation(slots: u32) -> (Server, u64) {
    let mut s = Server::connected(config());
    let (stateid, fh) = s.open("f", 3, 0, b"o", true).unwrap();
    s.close(&fh, &stateid);
    let fileid = s.list(0, 4096).0[0].0;
    let h = &mut s.rpc.handler;
    h.delegations.set_enabled(true);
    h.backchannel.register([4; 16], 99, 0x4000_0000, slots);
    assert!(h.backchannel.attach_transport(&[4; 16], 7, opaque_auth::default()).is_ok());
    let now = Duration::from_secs(1);
    assert!(h.delegations.try_grant_at(now, 99, fileid, WANT_WRITE_DELEG).is_some());
    (s, fileid)
}

#[test]
fn delegation_in_the_way_is_recalled() {
    let (mut s, fileid) = with_delegation(1);
    assert_eq!(s.open("f", 1, 0, b"o", false).unwrap_err(), Nfs4Status::Delay);
    assert_eq!(s.sent, [1]);
    assert!(s.rpc.handler.delegations.get_delegation(fileid).unwrap().recall_initiated);
    // It is not recalled twice.
    assert_eq!(s.open("f", 1, 0, b"o", false).unwrap_err(), Nfs4Status::Delay);
    assert_eq!(s.sent, [1]);
}

#[test]
fn recall_that_is_not_sent_is_made_again() {
    let (mut s, fileid) = with_delegation(1);
    s.reachable = false;
    for n in 1..3 {
        assert_eq!(s.open("f", 1, 0, b"o", false).unwrap_err(), Nfs4Status::CbPathDown);
        assert_eq!(s.sent.len(), n);
        let d = s.rpc.handler.delegations.get_delegation(fileid).unwrap();
        assert!(!d.recall_initiated && d.recall_time.is_none());
        assert!(s.rpc.handler.backchannel.inflight.is_empty());
    }
    s.reachable = true;
    assert_eq!(s.open("f", 1, 0, b"o", false).unwrap_err(), Nfs4Status::Delay);
    assert_eq!(s.sent, [1, 2, 3]);
    assert_eq!(s.waits, 0);
}

#[test]
fn callback_without_a_place_is_waited_for_once() {
    let (mut s, fileid) = with_delegation(0);
    assert_eq!(s.open("f", 1, 0, b"o", false).unwrap_err(), Nfs4Status::BackChanBusy);
    assert_eq!(s.waits, 1);
    assert!(s.sent.is_empty());
    assert!(!s.rpc.handler.delegations.get_delegation(fileid).unwrap().recall_initiated);
}
