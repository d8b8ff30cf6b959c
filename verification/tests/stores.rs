use curvine_nfs::attrs::{
    compare_fattr4, encode_fattr4, encode_supported_attrs, parse_setattr_attrs, SetAttrs,
    SUPPORTED_WORD0,
};
use curvine_nfs::backchannel::{BackchannelManager, BackchannelState, CallbackOp};
use curvine_nfs::bytes::{put_u32, put_u64};
use curvine_nfs::client::ClientManager;
use curvine_nfs::compound::CompoundHandler;
use curvine_nfs::deleg_reaper::DelegationReaperTask;
use curvine_nfs::delegation::{
    DelegationConfig, DelegationManager, DelegationType, WANT_DELEG_ANY, WANT_NO_DELEG,
    WANT_READ_DELEG, WANT_WRITE_DELEG,
};
use curvine_nfs::error::Nfs4Status;
use curvine_nfs::fs::{
    generate_fileid_from_path, plan_read, reached_end, FsConfig, Nfs4FileSystem, PathCache,
    ROOT_FILEID,
};
use curvine_nfs::lock::{end_of_range, LockManager, LockType4};
use curvine_nfs::open::OpenManager;
use curvine_nfs::persistence::{
    file_path, is_state_file, Machine, PersistenceConfig, RecoveryMetadata, StatePersistenceManager,
};
use curvine_nfs::rpc::opaque_auth;
use curvine_nfs::saver::StateSaverTask;
use curvine_nfs::storage::{FsAnswer, FsStep, Reply, Request, StatusFor};
use curvine_nfs::tcp::{
    export_name, generate_host_ip, is_auto, split_address, BindFault, HostSearch, TcpSettings,
    TcpTexts, TcpTuningConfig,
};
use curvine_nfs::text::hash_of;
use curvine_nfs::time::Duration;
use curvine_nfs::types::{
    ClientOwner4, Fattr4, FileAttrs, FileStatus, FileType, LockOwner4, Nfs4FileHandle, Stateid4,
};

fn config() -> FsConfig {
    FsConfig {
        read_only: false,
        cluster_generation: 1,
        path_cache_size: 100,
        path_cache_ttl_secs: 600,
        file_status_cache_size: 100,
        file_status_cache_ttl_secs: 600,
        file_data_cache_size: 100,
        file_data_cache_ttl_secs: 600,
        max_cacheable_file_size: 100,
        max_read_size: 4096,
        max_write_size: 4096,
    }
}

fn file(id: i64, name: &str, kind: FileType) -> FileStatus {
    FileStatus {
        id,
        name: String::from(name),
        file_type: kind,
        mode: 0o644,
        nlink: 1,
        owner: String::from("1000"),
        group: String::from("100"),
        len: 10,
        atime: 0,
        mtime: 0,
        target: None,
    }
}

fn fh() -> Nfs4FileHandle {
    Nfs4FileHandle::new(vec![1, 2, 3, 4])
}

// Locks.

#[test]
fn locks_exclude_each_other() {
    let mut m = LockManager::new();
    let a = m
        .lock(1, b"a".to_vec(), 7, LockType4::WriteLt, 0, 100, false, None)
        .ok()
        .unwrap();
    let b = LockOwner4 { clientid: 2, owner: b"b".to_vec() };
    assert!(m.test_lock(7, LockType4::ReadLt, 99, 1, &b).is_some());
    assert!(m.test_lock(7, LockType4::ReadLt, 100, 1, &b).is_none());
    assert!(m.test_lock(8, LockType4::ReadLt, 0, 1, &b).is_none());
    let denied = m.lock(2, b"b".to_vec(), 7, LockType4::ReadLt, 50, 1, false, None).err().unwrap();
    assert_eq!(denied.status, Nfs4Status::Denied);
    assert_eq!(m.get_stats().total_granted, 1);
    assert_eq!(m.get_stats().total_denied, 1);
    let held = m.unlock(&a, 40, 20).ok().unwrap();
    assert_eq!(held.other, a.other);
    assert!(held.seqid > a.seqid);
    assert_eq!(m.get_lock_state(&held).unwrap().lock_entries.len(), 2);
    assert!(m.lock(2, b"b".to_vec(), 7, LockType4::ReadLt, 50, 1, false, None).is_ok());
    m.release_all_for_client(1);
    assert!(m.test_lock(7, LockType4::WriteLt, 0, 40, &b).is_none());
    assert_eq!(m.unlock(&held, 0, 1).err().unwrap().status, Nfs4Status::BadStateid);
}

#[test]
fn neighbouring_ranges_become_one() {
    let mut m = LockManager::new();
    let a = m.lock(1, b"a".to_vec(), 7, LockType4::ReadLt, 0, 10, false, None).ok().unwrap();
    let a = m
        .lock(1, b"a".to_vec(), 7, LockType4::ReadLt, 10, 10, false, Some(&a))
        .ok()
        .unwrap();
    let state = m.get_lock_state(&a).unwrap();
    assert_eq!(state.lock_entries.len(), 1);
    assert_eq!((state.lock_entries[0].offset, state.lock_entries[0].length), (0, 20));
    assert_eq!(end_of_range(5, 10), 15);
    assert_eq!(end_of_range(5, u64::MAX), u64::MAX);
    assert_eq!(LockType4::from(4), LockType4::WritewLt);
    assert!(LockType4::WritewLt.is_write() && LockType4::WritewLt.is_blocking());
}

#[test]
fn longer_lock_leaves_others_theirs() {
    let mut m = LockManager::new();
    let a = m.lock(1, b"a".to_vec(), 7, LockType4::WriteLt, 0, 10, false, None).ok().unwrap();
    assert!(m.lock(2, b"b".to_vec(), 7, LockType4::WriteLt, 20, 10, false, None).is_ok());
    let denied = m
        .lock(1, b"a".to_vec(), 7, LockType4::WriteLt, 15, 6, false, Some(&a))
        .err()
        .unwrap();
    assert_eq!(denied.status, Nfs4Status::Denied);
    assert!(m.lock(1, b"a".to_vec(), 7, LockType4::WriteLt, 10, 10, false, Some(&a)).is_ok());
    let a_owner = LockOwner4 { clientid: 1, owner: b"a".to_vec() };
    let b_owner = LockOwner4 { clientid: 2, owner: b"b".to_vec() };
    assert!(m.test_lock(7, LockType4::WriteLt, 20, 10, &b_owner).is_none());
    assert!(m.test_lock(7, LockType4::WriteLt, 0, 20, &a_owner).is_none());
    m.release_file(1, 7);
    assert_eq!(m.get_stats().total_released, 1);
    assert_eq!(m.get_lock_counts(), (1, 0));
    m.release_all_for_owner(&b_owner);
    assert_eq!(m.get_lock_counts(), (0, 0));
}

#[test]
fn byte_between_ranges_stays_free() {
    let mut m = LockManager::new();
    let w = LockType4::WriteLt;
    let a = m.lock(1, b"a".to_vec(), 9, w, 0, 10, false, None).ok().unwrap();
    let a = m.lock(1, b"a".to_vec(), 9, w, 11, 9, false, Some(&a)).ok().unwrap();
    let entries = &m.get_lock_state(&a).unwrap().lock_entries;
    assert_eq!(entries.len(), 2);
    assert_eq!((entries[0].offset, entries[0].length), (0, 10));
    assert_eq!((entries[1].offset, entries[1].length), (11, 9));
    assert!(entries.iter().all(|e| !e.overlaps(10, 1)));
    assert!(m.lock(2, b"b".to_vec(), 9, w, 10, 1, false, None).is_ok());
}

#[test]
fn only_what_is_granted_is_counted() {
    let mut m = LockManager::new();
    let w = LockType4::WriteLt;
    let a = m.lock(1, b"a".to_vec(), 7, w, 0, 10, false, None).ok().unwrap();
    assert_eq!(m.get_stats().total_granted, 1);
    // The state is of another owner, and then there is none.
    let none = Stateid4 { seqid: 1, other: [9; 12] };
    for id in [&a, &none] {
        let fault = m.lock(2, b"b".to_vec(), 7, w, 50, 10, false, Some(id)).err().unwrap();
        assert_eq!(fault.status, Nfs4Status::BadStateid);
    }
    assert_eq!(m.get_stats().total_granted, 1);
    assert_eq!(m.get_lock_counts(), (1, 0));
}

#[test]
fn merges_and_splits_are_counted() {
    let mut m = LockManager::new();
    let r = LockType4::ReadLt;
    let a = m.lock(1, b"a".to_vec(), 7, r, 0, 10, false, None).ok().unwrap();
    let a = m.lock(1, b"a".to_vec(), 7, r, 20, 10, false, Some(&a)).ok().unwrap();
    assert_eq!((m.get_stats().total_merges, m.get_stats().total_splits), (0, 0));
    // Both ranges become one with what lies between them.
    let a = m.lock(1, b"a".to_vec(), 7, r, 10, 10, false, Some(&a)).ok().unwrap();
    assert_eq!((m.get_stats().total_merges, m.get_stats().total_splits), (2, 0));
    let a = m.unlock(&a, 10, 5).ok().unwrap();
    assert_eq!((m.get_stats().total_merges, m.get_stats().total_splits), (2, 1));
    assert!(m.unlock(&a, 0, 5).is_ok());
    assert_eq!(m.get_stats().total_splits, 1);
}

#[test]
fn ranges_are_told_apart_by_file() {
    let mut m = LockManager::new();
    let (r, w) = (LockType4::ReadLt, LockType4::WriteLt);
    let a = m.lock(1, b"a".to_vec(), 7, w, 0, 10, false, None).ok().unwrap();
    let a = m.lock(1, b"a".to_vec(), 8, w, 10, 10, false, Some(&a)).ok().unwrap();
    assert_eq!(m.get_lock_state(&a).unwrap().lock_entries.len(), 2);
    let b = LockOwner4 { clientid: 2, owner: b"b".to_vec() };
    assert!(m.test_lock(7, r, 10, 10, &b).is_none());
    assert!(m.test_lock(8, r, 0, 10, &b).is_none());
    assert!(m.test_lock(8, r, 10, 1, &b).is_some());
    assert!(m.lock(2, b"b".to_vec(), 7, w, 10, 10, false, None).is_ok());
    // Leaving one file keeps what is locked of the other.
    m.release_file(1, 7);
    assert!(m.test_lock(7, w, 0, 10, &b).is_none());
    assert!(m.test_lock(8, w, 10, 1, &b).is_some());
}

#[test]
fn owner_gives_up_all_states() {
    let mut m = LockManager::new();
    let w = LockType4::WriteLt;
    let first = m.lock(1, b"a".to_vec(), 7, w, 0, 10, false, None).ok().unwrap();
    let second = m.lock(1, b"a".to_vec(), 7, w, 50, 10, false, None).ok().unwrap();
    assert!(first.other != second.other);
    let other = m.lock(2, b"a".to_vec(), 7, w, 100, 10, false, None).ok().unwrap();
    m.release_all_for_owner(&LockOwner4 { clientid: 1, owner: b"a".to_vec() });
    assert!(m.get_lock_state(&first).is_none() && m.get_lock_state(&second).is_none());
    assert!(m.get_lock_state(&other).is_some());
    assert_eq!(m.export_locks().len(), 1);
    assert!(m.lock(2, b"a".to_vec(), 7, w, 0, 60, false, None).is_ok());
}

// Open files.

#[test]
fn clients_do_not_share_opens() {
    let mut m = OpenManager::new();
    let path = || String::from("/f");
    let (one, _) = m.open(1, b"o".to_vec(), 7, path(), 1, 0).ok().unwrap();
    let (two, new) = m.open(2, b"o".to_vec(), 7, path(), 1, 0).ok().unwrap();
    assert!(new && one.other != two.other);
    assert_eq!(m.get_state(&two).unwrap().clientid, 2);
    assert_eq!(m.get_state(&one).unwrap().clientid, 1);
    let (again, new) = m.open(1, b"o".to_vec(), 7, path(), 1, 0).ok().unwrap();
    assert!(!new && again.other == one.other);
    assert_eq!(m.find_state(1, 7, b"o").unwrap().stateid.other, one.other);
    assert_eq!(m.find_state(2, 7, b"o").unwrap().stateid.other, two.other);
    assert!(m.find_state(3, 7, b"o").is_none());
    m.close_all_for_client(1);
    assert!(m.find_state(1, 7, b"o").is_none());
    assert!(m.find_state(2, 7, b"o").is_some());
}

#[test]
fn open_files_share_as_they_say() {
    let mut m = OpenManager::new();
    let path = || String::from("/f");
    let (a, new) = m.open(1, b"a".to_vec(), 7, path(), 1, 2).ok().unwrap();
    assert!(new);
    let fault = m.open(2, b"b".to_vec(), 7, path(), 2, 0).err().unwrap();
    assert_eq!(fault.status, Nfs4Status::ShareDenied);
    let (b, _) = m.open(2, b"b".to_vec(), 7, path(), 1, 0).ok().unwrap();
    assert!(a.other != b.other);
    assert!(m.verify_stateid(&a).is_ok());
    let later = Stateid4 { seqid: a.seqid + 1, ..a };
    assert_eq!(m.verify_stateid(&later).err().unwrap().status, Nfs4Status::BadStateid);
    let (again, new) = m.open(2, b"b".to_vec(), 7, path(), 1, 0).ok().unwrap();
    assert!(!new);
    assert_eq!(again.other, b.other);
    assert!(m.verify_stateid(&b).is_ok());
    let later = m.count_change(&b, true).unwrap();
    assert_eq!(m.verify_stateid(&b).err().unwrap().status, Nfs4Status::OldStateid);
    assert!(m.verify_stateid(&later).is_ok());
    assert_eq!(m.get_client_opens(2).len(), 1);
    assert!(m.close(&again).is_ok());
    assert_eq!(m.close(&again).err().unwrap().status, Nfs4Status::BadStateid);
    m.close_all_for_client(1);
    assert!(m.export_opens().is_empty());
}

// Delegations and callbacks.

#[test]
fn delegation_is_granted_once_and_taken_back() {
    let mut m = DelegationManager::with_config(DelegationConfig {
        enabled: true,
        recall_timeout_secs: 30,
        max_delegations: 2,
        reaper_check_interval_ms: 1000,
    });
    let now = Duration::from_secs(100);
    assert!(m.try_grant_at(now, 1, 7, WANT_NO_DELEG).is_none());
    let d = m.try_grant_at(now, 1, 7, WANT_READ_DELEG).unwrap();
    assert_eq!(d.deleg_type, DelegationType::Read);
    assert!(m.try_grant_at(now, 2, 7, WANT_DELEG_ANY).is_none());
    assert!(m.needs_recall(7, 2, true));
    assert!(!m.needs_recall(7, 2, false));
    assert!(!m.needs_recall(7, 1, true));
    let w = m.try_grant_at(now, 1, 8, WANT_WRITE_DELEG).unwrap();
    assert_eq!(w.deleg_type, DelegationType::Write);
    assert!(m.try_grant_at(now, 1, 9, WANT_READ_DELEG).is_none());
    assert!(m.verify_stateid(&d.stateid).is_ok());
    assert!(m.return_delegation(&d.stateid).is_ok());
    assert_eq!(m.return_delegation(&d.stateid).err().unwrap().status, Nfs4Status::BadStateid);
    m.revoke_all_for_client(1);
    assert!(!m.has_delegation(8));
}

#[test]
fn recall_goes_over_the_back_channel() {
    let mut m = DelegationManager::with_config(DelegationConfig {
        enabled: true,
        ..DelegationConfig::default()
    });
    let mut back = BackchannelManager::new();
    let session = [4u8; 16];
    let now = Duration::from_secs(10);
    let d = m.try_grant_at(now, 1, 7, WANT_WRITE_DELEG).unwrap();
    back.register(session, 1, 0x4000_0000, 2);
    assert!(back.is_available_for_client(1));
    assert!(back.attach_transport(&session, 77, opaque_auth::default()).is_ok());
    assert_eq!(back.get_state(&session), BackchannelState::Up);
    assert!(back.is_available_for_client(1));
    let sent = m.recall_at(now, &mut back, 7, fh(), false).ok().unwrap().unwrap();
    assert_eq!(sent.transport, 77);
    assert!(m.get_delegation(7).unwrap().recall_initiated);
    match back.complete_reply(sent.xid, true).unwrap() {
        CallbackOp::Recall { stateid, .. } => assert!(stateid == d.stateid),
        _ => panic!("another operation"),
    }
    // The client does not give it back.
    let late = Duration::from_secs(100_000);
    assert_eq!(m.cleanup_timed_out_recalls_at(late), vec![(7, 1)]);
    assert!(!m.has_delegation(7));
    back.mark_down(&session);
    assert!(!back.is_available_for_client(1));
    back.unregister(&session);
    assert_eq!(back.get_state(&session), BackchannelState::Missing);
}

#[test]
fn reaper_goes_on_until_it_is_ended() {
    let mut m = DelegationManager::with_config(DelegationConfig {
        enabled: false,
        ..DelegationConfig::default()
    });
    let mut task = DelegationReaperTask::new();
    assert!(task.run(&mut m).is_empty());
    m.set_enabled(true);
    assert!(task.run(&mut m).is_empty());
    assert!(!task.is_terminated());
    task.terminate();
    assert!(task.is_terminated());
}

// Attributes.

#[test]
fn attributes_are_encoded_as_they_are_asked_for() {
    let a = FileAttrs::from_status(&file(9, "f", FileType::File));
    // The size and the file id.
    let got = encode_fattr4(&a, &[1 << 4 | 1 << 20], None).ok().unwrap();
    assert_eq!(got.attrmask, vec![1 << 4 | 1 << 20]);
    let mut want = vec![];
    put_u64(&mut want, 10);
    put_u64(&mut want, 9);
    assert_eq!(got.attr_vals, want);
    // The mode, in the second word.
    let got = encode_fattr4(&a, &[0, 1 << 1], None).ok().unwrap();
    assert_eq!(got.attrmask, vec![0, 1 << 1]);
    assert_eq!(got.attr_vals, 0o644u32.to_be_bytes());
    // What is supported.
    let got = encode_fattr4(&a, &[1], None).ok().unwrap();
    assert_eq!(got.attr_vals[4..8], SUPPORTED_WORD0.to_be_bytes());
}

#[test]
fn supported_attributes_are_answered() {
    let a = FileAttrs::from_status(&file(9, "f", FileType::File));
    let mut bytes = vec![7];
    encode_supported_attrs(&mut bytes);
    assert_eq!(bytes.len(), 13);
    assert_eq!(bytes[..5], [7, 0, 0, 0, 2]);
    let word = |i: usize| u32::from_be_bytes(bytes[i..i + 4].try_into().unwrap());
    let supported = [word(5), word(9)];
    for bit in 0..64 {
        let mut ask = [0u32; 2];
        ask[bit / 32] = 1 << (bit % 32);
        let got = encode_fattr4(&a, &ask, Some(&fh())).ok().unwrap();
        let mut mask = got.attrmask.clone();
        mask.resize(2, 0);
        assert_eq!(mask[bit / 32] & ask[bit / 32], supported[bit / 32] & ask[bit / 32]);
    }
    // The values of both words, and those of one after the other.
    let both = encode_fattr4(&a, &supported, None).ok().unwrap().attr_vals;
    let mut parts = encode_fattr4(&a, &supported[..1], None).ok().unwrap().attr_vals;
    parts.extend(encode_fattr4(&a, &[0, supported[1]], None).ok().unwrap().attr_vals);
    assert_eq!(both, parts);
}

#[test]
fn attributes_are_compared() {
    let a = FileAttrs::from_status(&file(9, "f", FileType::File));
    let same = encode_fattr4(&a, &[1 << 4 | 1 << 20, 1 << 1], None).ok().unwrap();
    assert!(compare_fattr4(&same, &a, None).ok().unwrap());
    let grown = FileAttrs { size: 11, ..FileAttrs::from_status(&file(9, "f", FileType::File)) };
    assert!(!compare_fattr4(&same, &grown, None).ok().unwrap());
    // An attribute that there is not.
    let odd = Fattr4 { attrmask: vec![1 << 11], attr_vals: vec![] };
    assert!(!compare_fattr4(&odd, &a, None).ok().unwrap());
    let far = Fattr4 { attrmask: vec![0, 0, 1], attr_vals: vec![] };
    assert!(!compare_fattr4(&far, &a, None).ok().unwrap());
    // A word too many, with nothing in it.
    let padded = Fattr4 { attrmask: vec![1 << 4, 0, 0], attr_vals: 10u64.to_be_bytes().to_vec() };
    assert!(compare_fattr4(&padded, &a, None).ok().unwrap());
    let none = Fattr4 { attrmask: vec![], attr_vals: vec![] };
    assert!(compare_fattr4(&none, &a, None).ok().unwrap());
}

#[test]
fn attributes_to_set_are_read() {
    let mut vals = vec![];
    put_u64(&mut vals, 5);
    put_u32(&mut vals, 0o600);
    let set = parse_setattr_attrs(&Fattr4 { attrmask: vec![1 << 4, 1 << 1], attr_vals: vals })
        .ok()
        .unwrap();
    assert_eq!(set.size, Some(5));
    assert_eq!(set.mode, Some(0o600));
    assert!(set.uid.is_none() && set.any());
    let short = Fattr4 { attrmask: vec![1 << 4], attr_vals: vec![0; 3] };
    assert!(parse_setattr_attrs(&short).is_err());
}

// What is remembered of files.

#[test]
fn paths_and_numbers_are_remembered_both_ways() {
    let mut c = PathCache::new(100, 600, ROOT_FILEID);
    c.insert(7, String::from("/a"));
    assert_eq!(c.get_path(7).unwrap(), "/a");
    assert_eq!(c.get_fileid("/a"), Some(7));
    assert_eq!(c.get_path(ROOT_FILEID).unwrap(), "/");
    c.rename(7, "/a", "/b", 7);
    assert_eq!(c.get_path(7).unwrap(), "/b");
    assert_eq!(c.get_fileid("/b"), Some(7));
    assert!(c.get_fileid("/a").is_none());
    c.remove(7);
    assert!(c.get_path(7).is_none() && c.get_fileid("/b").is_none());
    c.insert(8, String::from("/c"));
    c.remove_by_path("/c");
    assert!(c.get_path(8).is_none());
}

#[test]
fn what_was_found_is_forgotten() {
    let mut c = PathCache::new(100, 600, ROOT_FILEID);
    c.insert(7, String::from("/a"));
    c.forget(7, None);
    assert!(c.get_path(7).is_none());
    assert_eq!(c.get_fileid("/a"), Some(7));
    c.forget(7, Some(String::from("/a")));
    assert!(c.get_fileid("/a").is_none());
    c.insert(8, String::from("/b"));
    c.forget_path("/b", None);
    assert_eq!(c.get_path(8).unwrap(), "/b");
    c.forget_path("/b", Some(8));
    assert!(c.get_path(8).is_none());
    c.insert(9, String::from("/d"));
    c.moved(5, "/d", 6, Some(9));
    assert!(c.get_path(9).is_none());
    assert_eq!(c.get_path(6).unwrap(), "/d");
    assert_eq!(c.get_fileid("/d"), Some(6));
}

fn path_asked_for(step: FsStep) -> Option<String> {
    match step {
        FsStep::Ask { request: Request::Status { path }, .. } => Some(path),
        FsStep::Ask { request: Request::List { path }, .. } => Some(path),
        FsStep::Ask { request: Request::MakeDir { path }, .. } => Some(path),
        FsStep::Ask { request: Request::Symlink { path, .. }, .. } => Some(path),
        FsStep::Ask { request: Request::Link { to, .. }, .. } => Some(to),
        FsStep::Ask { request: Request::OpenReader { path, .. }, .. } => Some(path),
        FsStep::Ask { request: Request::OpenWriter { path, .. }, .. } => Some(path),
        FsStep::Ask { request: Request::SetAttr { path, .. }, .. } => Some(path),
        _ => None,
    }
}

fn refusal(step: FsStep) -> Nfs4Status {
    match step {
        FsStep::Done { result: Err(e) } => e.status,
        _ => panic!("not refused"),
    }
}

#[test]
fn calls_go_by_the_path_that_was_found() {
    let mut fs = Nfs4FileSystem::new(config());
    let dir = || Some(String::from("/d"));
    let only_mode = SetAttrs {
        mode: Some(0o600),
        uid: None,
        gid: None,
        size: None,
        atime: None,
        mtime: None,
    };
    assert_eq!(path_asked_for(fs.lookup_in(5, dir(), "x", None)).unwrap(), "/d/x");
    assert_eq!(path_asked_for(fs.lookup_in(5, dir(), "..", None)).unwrap(), "/");
    assert_eq!(refusal(fs.lookup_in(5, None, "x", None)), Nfs4Status::Stale);
    fs.note_status(9, file(9, "x", FileType::File));
    match fs.lookup_in(5, dir(), "x", Some(9)) {
        FsStep::Done { result: Ok(FsAnswer::Found { fileid, .. }) } => assert_eq!(fileid, 9),
        _ => panic!("not found"),
    }
    assert_eq!(path_asked_for(fs.create_file_in(5, dir(), "x")).unwrap(), "/d/x");
    assert_eq!(path_asked_for(fs.mkdir_in(5, dir(), "x")).unwrap(), "/d/x");
    assert_eq!(path_asked_for(fs.symlink_in(5, dir(), "x", "t")).unwrap(), "/d/x");
    assert_eq!(path_asked_for(fs.remove_in(5, dir(), "x")).unwrap(), "/d/x");
    assert_eq!(path_asked_for(fs.rename_in(5, dir(), "x", 5, dir(), "y")).unwrap(), "/d/x");
    assert_eq!(
        path_asked_for(fs.link_in(8, Some(String::from("/f")), 5, dir(), "y")).unwrap(),
        "/d/y"
    );
    assert_eq!(refusal(fs.mkdir_in(5, None, "x")), Nfs4Status::Stale);
    assert_eq!(refusal(fs.rename_in(5, dir(), "x", 6, None, "y")), Nfs4Status::Stale);
    assert_eq!(path_asked_for(fs.open_file_at(5, dir(), 1)).unwrap(), "/d");
    assert_eq!(path_asked_for(fs.open_file_at(5, dir(), 2)).unwrap(), "/d");
    assert_eq!(refusal(fs.open_file_at(5, None, 1)), Nfs4Status::Stale);
    assert_eq!(path_asked_for(fs.read_at(dir(), 0, 1)).unwrap(), "/d");
    assert_eq!(path_asked_for(fs.write_at(5, dir(), 0, vec![1])).unwrap(), "/d");
    assert_eq!(path_asked_for(fs.setattr_at(5, dir(), only_mode)).unwrap(), "/d");
    assert_eq!(path_asked_for(Nfs4FileSystem::readdir_at(dir(), 0, 1)).unwrap(), "/d");
    assert_eq!(
        path_asked_for(Nfs4FileSystem::status_at(5, dir(), StatusFor::Itself)).unwrap(),
        "/d"
    );
    let mut shut = Nfs4FileSystem::new(FsConfig { read_only: true, ..config() });
    assert_eq!(refusal(shut.create_file_in(5, dir(), "x")), Nfs4Status::Rofs);
    assert_eq!(refusal(shut.link_in(8, dir(), 5, dir(), "y")), Nfs4Status::Rofs);
    assert_eq!(refusal(shut.write_at(5, dir(), 0, vec![1])), Nfs4Status::Rofs);
}

#[test]
fn numbers_of_paths_stay_the_same() {
    let a = generate_fileid_from_path("/a/b");
    assert_eq!(a, generate_fileid_from_path("/a/b"));
    assert_ne!(a, generate_fileid_from_path("/a/c"));
    // The 64-bit hash of "a" is af63dc4c8601ec8c.
    assert_eq!(hash_of(b"a"), 0xaf63_dc4c_8601_ec8c);
    assert_eq!(hash_of(b"foobar"), 0x8594_4171_f739_67e8);
    assert_eq!(generate_fileid_from_path("a"), 0x2f63_dc4c_8601_ec8d);
}

#[test]
fn handles_lead_to_their_files() {
    let fs = Nfs4FileSystem::new(config());
    let h = fs.fileid_to_fh(77);
    assert_eq!(h.data.len(), 16);
    assert_eq!(fs.fh_to_fileid(&h).ok().unwrap(), 77);
    let other = Nfs4FileSystem::new(FsConfig { cluster_generation: 2, ..config() });
    assert_eq!(other.fh_to_fileid(&h).err().unwrap().status, Nfs4Status::Stale);
    assert_eq!(fs.fh_to_fileid(&fh()).err().unwrap().status, Nfs4Status::Badhandle);
    assert_eq!(fs.get_path(77).err().unwrap().status, Nfs4Status::Stale);
    assert_eq!(fs.get_path(ROOT_FILEID).ok().unwrap(), "/");
}

#[test]
fn statuses_and_contents_are_remembered() {
    let mut fs = Nfs4FileSystem::new(config());
    fs.note_status(7, file(7, "f", FileType::File));
    assert_eq!(fs.remembered_status(7).unwrap().len, 10);
    fs.invalidate_status_cache_for_write(7);
    assert!(fs.remembered_status(7).is_none());
    fs.insert_file_data(7, vec![1, 2]);
    assert_eq!(fs.get_file_data(7).unwrap(), [1, 2]);
    fs.invalidate_file_data(7);
    assert!(fs.get_file_data(7).is_none());
    let mut none = Nfs4FileSystem::new(FsConfig { file_status_cache_size: -1, ..config() });
    none.note_status(7, file(7, "f", FileType::File));
    assert!(none.remembered_status(7).is_none());
}

#[test]
fn reading_stays_inside_the_file() {
    assert_eq!(plan_read(10, 0, 4), Some(4));
    assert_eq!(plan_read(10, 8, 4), Some(2));
    assert_eq!(plan_read(10, 10, 4), None);
    assert!(reached_end(10, 6, 4, 4));
    assert!(!reached_end(10, 5, 4, 4));
    assert!(reached_end(10, 0, 4, 3));
    // There is more of the file than can be counted in thirty-two bits.
    assert_eq!(plan_read(1 << 32, 0, 4096), Some(4096));
    assert_eq!(plan_read((1 << 32) + 10, 0, 4096), Some(4096));
    assert!(!reached_end(1 << 32, 0, 4096, 4096));
    assert_eq!(plan_read((1 << 32) + 10, 1 << 32, 4096), Some(10));
    assert!(reached_end((1 << 32) + 10, 1 << 32, 4096, 10));
}

#[test]
fn entries_come_in_the_order_of_their_numbers() {
    let mut fs = Nfs4FileSystem::new(config());
    let (task, request) = match fs.readdir(ROOT_FILEID, 0, 2) {
        FsStep::Ask { task, request } => (task, request),
        _ => panic!("no question"),
    };
    assert!(matches!(request, Request::List { path } if path == "/"));
    let list = vec![
        file(30, "c", FileType::File),
        file(10, "a", FileType::Dir),
        file(20, "b", FileType::File),
    ];
    match fs.resume(task, Reply::Entries(list)) {
        FsStep::Done { result: Ok(FsAnswer::Entries { entries, end }) } => {
            assert!(!end);
            let ids: Vec<u64> = entries.iter().map(|e| e.fileid).collect();
            assert_eq!(ids, [10, 20]);
            assert_eq!(entries[1].name, "b");
        },
        _ => panic!("no entries"),
    }
    assert_eq!(fs.get_path(20).ok().unwrap(), "/b");
}

#[test]
fn parts_of_a_listing_hold_each_entry_once() {
    let mut fs = Nfs4FileSystem::new(config());
    // The storage gives these files no numbers of their own.
    let names = ["c", "a", "e", "b", "d"];
    let mut seen = vec![];
    let mut cookie = 0;
    loop {
        let task = match fs.readdir(ROOT_FILEID, cookie, 2) {
            FsStep::Ask { task, .. } => task,
            _ => panic!("no question"),
        };
        let list = names.iter().map(|n| file(0, n, FileType::File)).collect();
        match fs.resume(task, Reply::Entries(list)) {
            FsStep::Done { result: Ok(FsAnswer::Entries { entries, end }) } => {
                assert!(entries.iter().all(|e| e.fileid > cookie));
                if let Some(e) = entries.last() {
                    cookie = e.fileid;
                }
                seen.extend(entries.into_iter().map(|e| e.name));
                if end {
                    break;
                }
            },
            _ => panic!("no entries"),
        }
    }
    seen.sort();
    assert_eq!(seen, ["a", "b", "c", "d", "e"]);
}

// What is kept over a restart.

fn machine(host: Option<&str>, multi: bool) -> Machine {
    Machine { hostname: host.map(String::from), multi_instance: multi, process_id: 42 }
}

#[test]
fn server_goes_by_the_name_it_is_given() {
    let given = PersistenceConfig {
        instance_id: Some(String::from("one")),
        ..PersistenceConfig::default()
    };
    let m = StatePersistenceManager::new(given, &machine(Some("host"), true));
    assert_eq!(m.instance_id(), "one");
    assert_eq!(m.state_dir, "/.nfs4_state/one");
    assert_eq!(m.clients_dir, "/.nfs4_state/one/clients");
    assert_eq!(m.recovery_meta, "/.nfs4_state/one/recovery.meta");
    let m = StatePersistenceManager::with_default_config(&machine(Some("host"), true));
    assert_eq!(m.instance_id(), "host");
    assert_eq!(m.save_interval_ms(), 30000);
    let m = StatePersistenceManager::with_default_config(&machine(None, true));
    assert_eq!(m.instance_id(), "node42");
    let m = StatePersistenceManager::with_default_config(&machine(Some(""), false));
    assert_eq!(m.instance_id(), "default");
    assert_eq!(m.initialize().len(), 4);
    assert!(m.is_enabled());
}

#[test]
fn all_that_clients_hold_is_written() {
    let mut clients = ClientManager::new();
    let owner = ClientOwner4 { co_verifier: [1; 8], co_ownerid: b"me".to_vec() };
    let (c, _, _) = clients.exchange_id_at(Duration::from_secs(5), owner).ok().unwrap();
    let mut opens = OpenManager::new();
    let (o, _) = opens.open(c, b"o".to_vec(), 7, String::from("/f"), 3, 0).ok().unwrap();
    let mut locks = LockManager::new();
    let l = locks.lock(c, b"o".to_vec(), 7, LockType4::WriteLt, 3, 4, false, None).ok().unwrap();
    let mut m = StatePersistenceManager::with_default_config(&machine(None, false));
    let now = Duration::from_secs(12);
    let s = m.save_snapshot_at(now, 1000, 42, &clients, &opens, &locks).unwrap();
    assert_eq!(s.meta.path, "/.nfs4_state/default/recovery.meta");
    assert_eq!((s.meta.record.recovery_epoch, s.meta.record.last_shutdown_time), (1, 1000));
    assert_eq!(s.meta.record.grace_period_secs, 90);
    assert_eq!(m.current_epoch(), 2);
    assert_eq!(s.clients.len(), 1);
    assert_eq!(s.clients[0].path, format!("/.nfs4_state/default/clients/{c}.json"));
    // Heard from seven seconds ago, and the lease lasts ninety.
    assert_eq!(s.clients[0].record.lease_expiry, 1000 - 7 + 90);
    assert_eq!((s.opens.len(), s.locks.len()), (1, 1));
    let hex = |b: &[u8]| b.iter().map(|x| format!("{x:02x}")).collect::<String>();
    assert_eq!(s.opens[0].path, format!("/.nfs4_state/default/opens/{}.json", hex(&o.other)));
    assert_eq!(s.opens[0].record.path, "/f");
    assert_eq!(s.locks[0].path, format!("/.nfs4_state/default/locks/{}_0.json", hex(&l.other)));
    let lock = &s.locks[0].record;
    assert_eq!((lock.lock_type, lock.offset, lock.length), (2, 3, 4));
    m.load_recovery_metadata(&RecoveryMetadata { recovery_epoch: 9, ..s.meta.record });
    assert_eq!(m.current_epoch(), 10);
    assert!(m.save_snapshot(42, &clients, &opens, &locks).is_some());
    m.config.enabled = false;
    assert!(m.save_snapshot(42, &clients, &opens, &locks).is_none());
    assert_eq!(m.current_epoch(), 11);
}

#[test]
fn only_records_are_read_after_a_restart() {
    assert!(is_state_file("a.json") && !is_state_file("a.jso") && !is_state_file("json"));
    assert_eq!(file_path("/d", "f"), "/d/f");
    let m = StatePersistenceManager::with_default_config(&machine(None, false));
    let entries = vec![
        file(1, "1.json", FileType::File),
        file(2, "2.txt", FileType::File),
        file(3, "3.json", FileType::Dir),
    ];
    assert_eq!(m.load_clients(&entries), ["/.nfs4_state/default/clients/1.json"]);
    assert_eq!(m.load_opens(&entries), ["/.nfs4_state/default/opens/1.json"]);
    assert_eq!(m.load_locks(&entries), ["/.nfs4_state/default/locks/1.json"]);
    assert_eq!(
        m.cleanup_unclaimed_state(&entries, &vec![], &vec![]),
        [
            "/.nfs4_state/default/clients/1.json",
            "/.nfs4_state/default/clients/2.txt",
            "/.nfs4_state/default/recovery.meta",
        ]
    );
}

#[test]
fn saving_does_not_overlap() {
    let mut t = StateSaverTask::new();
    assert!(!t.run(false));
    assert!(t.run(true));
    assert!(!t.run(true));
    t.saved();
    assert!(t.run(true));
    assert!(!t.terminate());
}

#[test]
fn confirmation_is_the_moment_in_nanoseconds() {
    let t = Duration { nanos: 0x0102_0304_0506_0708 };
    assert_eq!(CompoundHandler::confirm_verifier_at(t), [1, 2, 3, 4, 5, 6, 7, 8]);
}

#[test]
fn cleaned_up_client_has_nothing_left() {
    let mut h = CompoundHandler::new(config(), DelegationConfig::default());
    let owner = ClientOwner4 { co_verifier: [1; 8], co_ownerid: b"me".to_vec() };
    let (c, _, _) = h.clients.exchange_id(owner).ok().unwrap();
    let id = h.sessions.create_session(c).ok().unwrap();
    let (o, _) = h.opens.open(c, b"o".to_vec(), 7, String::from("/f"), 3, 0).ok().unwrap();
    let l = h.locks.lock(c, b"o".to_vec(), 7, LockType4::WriteLt, 0, 1, false, None).ok().unwrap();
    h.cleanup_client(c);
    assert!(h.sessions.get_session(&id).is_none());
    assert!(h.opens.get_state(&o).is_none());
    assert!(h.locks.get_lock_state(&l).is_none());
    assert!(h.clients.get_client(c).is_none());
}

// Addresses and connections.

#[test]
fn addresses_are_split() {
    assert_eq!(split_address("0.0.0.0:2049").ok().unwrap(), (7, 2049));
    assert!(matches!(split_address("host").err().unwrap(), BindFault::NoPort));
    assert!(matches!(split_address("host:x").err().unwrap(), BindFault::BadPort));
    assert!(matches!(split_address("host:65536").err().unwrap(), BindFault::BadPort));
    assert!(is_auto(b"auto") && !is_auto(b"127.0.0.1"));
    assert_eq!(export_name("a"), "/a");
    assert_eq!(export_name("/a/"), "/a");
}

#[test]
fn hosts_are_tried_in_turn() {
    let first = generate_host_ip(1);
    assert!(first.starts_with("127.88."));
    let mut s = HostSearch::new();
    let mut hosts = vec![];
    while let Some(h) = s.next_host() {
        hosts.push(h);
    }
    assert_eq!(hosts.len(), 33);
    assert_eq!(hosts[0], first);
    assert_ne!(hosts[0], hosts[1]);
}

#[test]
fn settings_are_read_from_texts() {
    let text = |s: &str| Some(String::from(s));
    let told = TcpSettings::from_texts(&TcpTexts {
        send_buffer_kb: text("8"),
        recv_buffer_kb: text("-1"),
        nodelay: text("false"),
        quickack: text("no"),
        keepalive: text("true"),
        keepalive_idle_secs: text("+5"),
        keepalive_interval_secs: text("4294967296"),
        keepalive_probe_count: None,
    });
    assert_eq!((told.send_buffer_kb, told.recv_buffer_kb), (Some(8), None));
    assert_eq!((told.nodelay, told.quickack, told.keepalive), (Some(false), None, Some(true)));
    assert_eq!(told.keepalive_idle_secs, Some(5));
    assert_eq!((told.keepalive_interval_secs, told.keepalive_probe_count), (None, None));
}

#[test]
fn connections_are_set_up_as_told() {
    let usual = TcpTuningConfig::default();
    assert_eq!(usual.send_buffer_size, 512 * 1024);
    assert_eq!(TcpTuningConfig::large_files().recv_buffer_size, 1024 * 1024);
    assert_eq!(TcpTuningConfig::low_latency().recv_buffer_size, 256 * 1024);
    let told = TcpSettings {
        send_buffer_kb: Some(8),
        recv_buffer_kb: None,
        nodelay: Some(false),
        quickack: None,
        keepalive: None,
        keepalive_idle_secs: Some(5),
        keepalive_interval_secs: None,
        keepalive_probe_count: None,
    };
    assert!(told.can_be_met());
    let c = TcpTuningConfig::from_settings(&told);
    assert_eq!((c.send_buffer_size, c.recv_buffer_size), (8192, 512 * 1024));
    assert!(!c.nodelay && c.quickack && c.keepalive);
    assert_eq!((c.keepalive_idle_secs, c.keepalive_interval_secs), (5, 10));
    assert!(!TcpSettings { send_buffer_kb: Some(usize::MAX), ..told }.can_be_met());
}
