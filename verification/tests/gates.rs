use std::sync::atomic::Ordering;
use vaiexia_obfs::gate::lets_in;
use vaiexia_obfs::udp::cookie_gate::threshold_reached;
use vaiexia_obfs::{
    AllowAll, AlwaysOpen, AlwaysUnderLoad, KeyAllowList, LoadGate, Threshold, TransportGate,
};

#[test]
fn always_open_not_under_load() {
    assert!(!AlwaysOpen.under_load());
}

#[test]
fn always_under_load() {
    assert!(AlwaysUnderLoad.under_load());
}

#[test]
fn threshold_under_load_when_exceeded() {
    let (gate, counter) = Threshold::new(2);
    assert!(!gate.under_load());
    counter.fetch_add(1, Ordering::Relaxed);
    assert!(!gate.under_load());
    counter.fetch_add(1, Ordering::Relaxed);
    assert!(gate.under_load());
}

#[test]
fn threshold_not_under_load_after_decrement() {
    let (gate, _) = Threshold::new(1);
    gate.increment();
    assert!(gate.under_load());
    gate.decrement();
    assert!(!gate.under_load());
}

#[test]
fn threshold_counts_from_zero_by_one() {
    let (gate, counter) = Threshold::new(3);
    assert_eq!(counter.load(Ordering::Relaxed), 0);
    gate.increment();
    gate.increment();
    assert_eq!(counter.load(Ordering::Relaxed), 2);
    gate.decrement();
    assert_eq!(counter.load(Ordering::Relaxed), 1);
    assert!(std::sync::Arc::ptr_eq(&gate.counter, &counter));
}

#[test]
fn threshold_of_zero_is_always_reached() {
    let (gate, _) = Threshold::new(0);
    assert!(gate.under_load());
    assert!(threshold_reached(0, 0));
    assert!(!threshold_reached(4, 5));
    assert!(threshold_reached(5, 5));
}

#[test]
fn allow_all_accepts_any_key() {
    let gate = AllowAll;
    let key = [0xab_u8; 32];
    assert!(gate.authenticate(&key).is_ok());
}

#[test]
fn key_allow_list_accepts_known_key() {
    let key = [0x01_u8; 32];
    let gate = KeyAllowList::new([key]);
    assert!(gate.authenticate(&key).is_ok());
}

#[test]
fn key_allow_list_rejects_unknown_key() {
    let allowed = [0x01_u8; 32];
    let unknown = [0x02_u8; 32];
    let gate = KeyAllowList::new([allowed]);
    assert!(gate.authenticate(&unknown).is_err());
}

#[test]
fn rejection_names_the_key_in_hex() {
    let gate = KeyAllowList::from_vec(vec![]);
    let mut key = [0x00_u8; 32];
    key[0] = 0x0a;
    key[1] = 0xff;
    key[31] = 0x90;
    let reason = gate.authenticate(&key).unwrap_err();
    let expected = format!("public key not in allow-list: 0aff{}90", "00".repeat(29));
    assert_eq!(reason, expected);
}

#[test]
fn key_allow_list_finds_every_key() {
    let gate = KeyAllowList::from_vec(vec![[1; 32], [2; 32], [3; 32]]);
    assert!(gate.authenticate(&[1; 32]).is_ok());
    assert!(gate.authenticate(&[3; 32]).is_ok());
    let mut close = [3; 32];
    close[31] = 4;
    assert!(gate.authenticate(&close).is_err());
}

#[test]
fn peer_is_let_in_by_its_key() {
    let gate = KeyAllowList::new([[7; 32]]);
    assert!(lets_in(&gate, Some([7; 32])));
    assert!(!lets_in(&gate, Some([8; 32])));
    assert!(lets_in(&gate, None));
    assert!(lets_in(&AllowAll, Some([8; 32])));
}

#[test]
fn allow_all_grants_every_scope() {
    let subject = AllowAll.verify();
    assert_eq!(subject.id, "obfs-client");
    assert_eq!(subject.scopes, vec!["*".to_string()]);
}
