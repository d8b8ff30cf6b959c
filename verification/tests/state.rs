use curvine_nfs::client::ClientManager;
use curvine_nfs::error::Nfs4Status;
use curvine_nfs::grace::{GracePeriodConfig, GracePeriodManager, GracePeriodReaper};
use curvine_nfs::lease::{LeaseManager, LeaseReservation, LeaseState};
use curvine_nfs::session::{Session, SessionManager, Slot};
use curvine_nfs::time::{unix_time, Clock, Duration};
use curvine_nfs::types::ClientOwner4;

fn wait(millis: u64) {
    let clock = Clock::start();
    while clock.now().nanos < Duration::from_millis(millis).nanos {}
}

fn owner(name: &str, verifier: u8) -> ClientOwner4 {
    ClientOwner4 { co_verifier: [verifier; 8], co_ownerid: name.as_bytes().to_vec() }
}

#[test]
fn test_slot_acquire_release() {
    let mut slot = Slot::new(0);

    assert!(slot.acquire(1).unwrap().is_none());

    slot.release(vec![1, 2, 3]);

    let cached = slot.acquire(1).unwrap();
    assert!(cached.is_some());
    assert_eq!(cached.unwrap().reply, vec![1, 2, 3]);

    assert!(slot.acquire(2).unwrap().is_none());
}

#[test]
fn test_session_trunking() {
    let mut session = Session::new([0u8; 16], 1, 64);

    assert_eq!(session.connection_count(), 1);

    assert_eq!(session.add_connection(), 2);
    assert_eq!(session.add_connection(), 3);
    assert_eq!(session.connection_count(), 3);

    assert_eq!(session.remove_connection(), 2);
    assert_eq!(session.connection_count(), 2);
}

#[test]
fn test_session_manager() {
    let mut manager = SessionManager::with_slot_count(64);

    let sessionid = manager.create_session(12345).unwrap();
    let session = manager.get_session(&sessionid).unwrap();
    assert_eq!(session.sessionid, sessionid);
    assert_eq!(session.clientid, 12345);
    assert_eq!(session.slot_count(), 64);

    let retrieved = manager.get_session(&sessionid).unwrap();
    assert_eq!(retrieved.clientid, 12345);

    manager.destroy_session(&sessionid).unwrap();
    assert!(manager.get_session(&sessionid).is_none());
}

#[test]
fn test_grace_basic() {
    let mut gpm = GracePeriodManager::new(GracePeriodConfig::with_duration(2));

    assert!(!gpm.in_grace());

    gpm.enter_grace_period().unwrap();
    assert!(gpm.in_grace());

    gpm.exit_grace_period();
    assert!(!gpm.in_grace());
}

#[test]
fn test_sticky_grace_refs() {
    let mut gpm = GracePeriodManager::new(GracePeriodConfig::default());

    gpm.enter_grace_period().unwrap();

    assert!(gpm.get_grace_status(true));

    assert!(gpm.refs != 0);

    gpm.put_grace_status();

    gpm.exit_grace_period();
    assert!(!gpm.in_grace());
}

#[test]
fn test_grace_timeout() {
    let mut gpm = GracePeriodManager::new(GracePeriodConfig::with_duration(1));

    gpm.enter_grace_period().unwrap();
    assert!(gpm.in_grace());

    wait(1100);

    assert!(gpm.try_lift_grace());
    assert!(!gpm.in_grace());
}

#[test]
fn test_graceless_mode() {
    let mut gpm = GracePeriodManager::new(GracePeriodConfig::graceless());

    gpm.enter_grace_period().unwrap();
    assert!(!gpm.in_grace());
}

#[test]
fn test_lease_state_basic() {
    let mut state = LeaseState::new(12345);
    let lifetime = Duration::from_secs(60);

    assert!(state.is_valid(lifetime));
    assert!(!state.is_confirmed());

    state.confirm();
    assert!(state.is_confirmed());
}

#[test]
fn test_lease_reservation() {
    let mut state = LeaseState::new(12345);
    let lifetime = Duration::from_secs(60);

    assert_eq!(state.reservation_count(), 0);

    {
        let guard = LeaseReservation::new(&mut state);
        assert_eq!(state.reservation_count(), 1);
        assert!(state.is_valid(lifetime));
        guard.release(&mut state);
    }

    assert_eq!(state.reservation_count(), 0);
}

#[test]
fn test_lease_manager() {
    let mut manager = LeaseManager::new();

    manager.register(12345);
    assert!(manager.is_valid(12345));

    assert!(manager.confirm(12345));
    assert!(manager.get(12345).unwrap().is_confirmed());

    assert!(manager.renew(12345));

    manager.remove(12345);
    assert!(!manager.is_valid(12345));
}

#[test]
fn test_lease_expiration() {
    let mut manager = LeaseManager::with_lifetime(Duration::from_millis(50));

    manager.register(12345);
    assert!(manager.confirm(12345));

    assert!(manager.is_valid(12345));

    wait(100);

    assert!(!manager.is_valid(12345));

    let expired = manager.collect_expired();
    assert_eq!(expired, vec![12345]);
}

#[test]
fn slot_refuses_what_is_out_of_order() {
    let mut slot = Slot::new(3);
    assert_eq!(slot.acquire(2).err().unwrap(), Nfs4Status::SeqMisordered);
    assert!(slot.acquire(1).unwrap().is_none());
    assert_eq!(slot.acquire(1).err().unwrap(), Nfs4Status::RetryUncachedRep);
    assert_eq!(slot.acquire(2).err().unwrap(), Nfs4Status::SeqMisordered);
    slot.release_no_cache();
    assert!(slot.get_cached_reply().is_none());
}

#[test]
fn sessions_of_a_client_end_together() {
    let mut m = SessionManager::with_slot_count(4);
    let a = m.create_session(1).unwrap();
    let b = m.create_session(1).unwrap();
    let c = m.create_session(2).unwrap();
    assert_ne!(a, b);
    assert!(m.has_client_sessions(1));
    m.destroy_client_sessions(1);
    assert!(!m.has_client_sessions(1));
    assert!(m.get_session(&a).is_none());
    assert!(m.get_session(&b).is_none());
    assert_eq!(m.get_session(&c).unwrap().clientid, 2);
    assert_eq!(m.destroy_session(&a).err().unwrap().status, Nfs4Status::BadSession);
}

#[test]
fn request_is_run_once_in_a_session() {
    let mut m = SessionManager::with_slot_count(2);
    let id = m.create_session(7).unwrap();
    let first = m.sequence(&id, 1, 1).unwrap();
    assert_eq!(first.clientid, 7);
    assert!(first.cached.is_none());
    m.cache_reply(&id, 1, vec![9]);
    let again = m.sequence(&id, 1, 1).unwrap();
    assert_eq!(again.cached.unwrap().reply, vec![9]);
    assert_eq!(m.sequence(&id, 1, 5).err().unwrap().status, Nfs4Status::SeqMisordered);
    assert_eq!(m.sequence(&id, 2, 1).err().unwrap().status, Nfs4Status::BadSlot);
    assert_eq!(m.sequence(&[9; 16], 0, 1).err().unwrap().status, Nfs4Status::BadSession);
}

#[test]
fn reserved_lease_does_not_end() {
    let mut state = LeaseState::new_at(5, Clock::start(), Duration::from_secs(10));
    let lifetime = Duration::from_secs(60);
    let end = Duration::from_secs(70);
    assert!(state.is_valid_at(Duration { nanos: end.nanos - 1 }, lifetime));
    assert!(!state.is_valid_at(end, lifetime));
    assert_eq!(state.remaining_secs_at(Duration::from_secs(30), lifetime), 40);
    state.reserve();
    assert!(state.is_valid_at(Duration::from_secs(1000), lifetime));
    state.release_and_renew_at(Duration::from_secs(1000));
    assert_eq!(state.remaining_secs_at(Duration::from_secs(1000), lifetime), 60);
}

#[test]
fn ended_lease_cannot_be_reserved() {
    let mut m = LeaseManager::with_lifetime(Duration::from_secs(60));
    m.register_at(Duration::from_secs(0), 3);
    assert!(m.reserve_at(Duration::from_secs(61), 3).is_none());
    let held = m.reserve_at(Duration::from_secs(59), 3).unwrap();
    assert_eq!(held.clientid(), 3);
    assert!(m.is_valid_at(Duration::from_secs(500), 3));
    m.release_at(Duration::from_secs(500), held);
    assert!(m.is_valid_at(Duration::from_secs(559), 3));
    assert!(!m.is_valid_at(Duration::from_secs(560), 3));
    assert_eq!(m.client_count(), 1);
    assert_eq!(m.all_clients(), vec![3]);
}

#[test]
fn grace_period_waits_for_what_is_under_way() {
    let mut g = GracePeriodManager::new(GracePeriodConfig::with_duration(90));
    let start = Duration::from_secs(5);
    assert!(g.get_grace_status(false));
    assert_eq!(g.enter_grace_period_at(start).err().unwrap(), -libc::EAGAIN);
    assert!(!g.in_grace());
    assert!(!g.get_grace_status(false));
    g.put_grace_status();
    assert!(g.enter_grace_period_at(start).is_ok());
    assert!(g.in_grace());
    assert_eq!(g.check_operation(false).err().unwrap(), Nfs4Status::Grace);
    assert!(g.check_operation(true).is_ok());
    assert_eq!(g.remaining_time_at(Duration::from_secs(15)).unwrap(), Duration::from_secs(80));
    assert!(!g.try_lift_grace_at(Duration::from_secs(94)));
    assert!(g.try_lift_grace_at(Duration::from_secs(95)));
    assert!(!g.in_grace());
    assert_eq!(g.check_operation(true).err().unwrap(), Nfs4Status::NoGrace);
}

#[test]
fn guard_holds_the_period_until_it_is_released() {
    let mut g = GracePeriodManager::new(GracePeriodConfig::with_duration(1));
    let guard = g.acquire_grace_status(false).unwrap();
    assert_eq!(g.refs, 1);
    guard.release(&mut g);
    assert_eq!(g.refs, 0);
    assert_eq!(g.acquire_grace_status(true).err().unwrap(), Nfs4Status::NoGrace);
}

#[test]
fn reaper_lifts_the_period_and_ends_with_the_server() {
    let mut g = GracePeriodManager::new(GracePeriodConfig::with_duration(0));
    g.enter_grace_period().unwrap();
    {
        let mut reaper = GracePeriodReaper::new(&mut g);
        assert!(!reaper.terminate());
        assert!(reaper.run());
    }
    assert!(!g.in_grace());
    g.shutdown();
    assert!(GracePeriodReaper::new(&mut g).terminate());
}

#[test]
fn client_keeps_its_id_until_it_starts_anew() {
    let mut m = ClientManager::new();
    let (a, seq, flags) = m.exchange_id(owner("alpha", 1)).unwrap();
    assert_eq!((seq, flags), (1, 0));
    let (b, _, _) = m.exchange_id(owner("beta", 1)).unwrap();
    assert_ne!(a, b);
    assert_eq!(m.find_client_by_owner(b"alpha"), Some(a));
    m.confirm_client(a).unwrap();
    assert_eq!(m.exchange_id(owner("alpha", 1)).unwrap(), (a, 1, 1));
    let (c, _, flags) = m.exchange_id(owner("alpha", 2)).unwrap();
    assert_ne!(c, a);
    assert_eq!(flags, 0);
    assert!(m.get_client(a).is_none());
    assert_eq!(m.renew_lease(a).err().unwrap().status, Nfs4Status::StaleClientid);
    assert_eq!(m.confirm_client(a).err().unwrap().status, Nfs4Status::StaleClientid);
}

#[test]
fn reservation_goes_to_the_client_that_made_it() {
    let mut m = LeaseManager::with_lifetime(Duration::from_secs(60));
    let now = Duration::from_secs(5);
    m.register_at(now, 3);
    m.register_at(now, 4);
    let r = m.reserve_at(now, 4).unwrap();
    assert_eq!(r.clientid(), 4);
    assert_eq!(m.get(4).unwrap().reservation_count(), 1);
    m.release_at(Duration::from_secs(9), r);
    assert_eq!(m.get(4).unwrap().reservation_count(), 0);
    assert_eq!(m.get(4).unwrap().last_renew.as_secs(), 9);
    assert_eq!(m.get(3).unwrap().last_renew.as_secs(), 5);
}

#[test]
fn known_client_needs_no_new_number() {
    let mut m = ClientManager::new();
    let (id, _, _) = m.exchange_id(owner("a", 1)).unwrap();
    assert!(m.confirm_client(id).is_ok());
    m.next_clientid = 0x1_0000_0000;
    assert_eq!(m.exchange_id(owner("a", 1)).unwrap(), (id, 1, 1));
    let fault = m.exchange_id(owner("b", 1)).unwrap_err();
    assert_eq!(fault.status, Nfs4Status::Serverfault);
    assert_eq!(m.export_clients().len(), 1);
}

#[test]
fn silent_clients_are_forgotten() {
    let mut m = ClientManager::new();
    let (a, _, _) = m.exchange_id_at(Duration::from_secs(0), owner("a", 1)).unwrap();
    let (b, _, _) = m.exchange_id_at(Duration::from_secs(50), owner("b", 1)).unwrap();
    assert!(m.cleanup_expired_at(Duration::from_secs(90)).is_empty());
    assert_eq!(m.cleanup_expired_at(Duration::from_secs(91)), vec![a]);
    assert!(m.get_client(b).is_some());
}

#[test]
fn client_with_sessions_is_busy() {
    let mut m = ClientManager::new();
    let mut s = SessionManager::with_slot_count(1);
    let (a, _, _) = m.exchange_id(owner("a", 1)).unwrap();
    let id = s.create_session(a).unwrap();
    assert_eq!(m.ensure_destroyable(a, &s).err().unwrap().status, Nfs4Status::ClientidBusy);
    s.destroy_session(&id).unwrap();
    assert!(m.ensure_destroyable(a, &s).is_ok());
    m.purge_client(a);
    assert!(m.get_client(a).is_none());
}

#[test]
fn clocks_go_on() {
    let clock = Clock::start();
    let first = clock.now();
    wait(2);
    let second = clock.now();
    assert!(second.nanos >= first.nanos + 1_000_000);
    assert_eq!(clock.same().now().as_secs(), 0);
    // The first of January 2020.
    assert!(unix_time().as_secs() > 1_577_836_800);
}
