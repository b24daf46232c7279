//! The registry operations the workers take under the lock.

use p2p_supervisor::registry::{Registered, Registries};
use p2p_supervisor::supervisor::Direction;

#[test]
fn fresh_incoming_registration() {
    let mut r = Registries::new();
    assert_eq!(r.register_incoming(1), Registered::Fresh);
}

#[test]
fn repeated_incoming_registration_is_duplicate() {
    let mut r = Registries::new();
    assert_eq!(r.register_incoming(1), Registered::Fresh);
    assert_eq!(r.register_incoming(1), Registered::Duplicate);
}

#[test]
fn registration_while_running_is_duplicate() {
    let mut r = Registries::new();
    assert_eq!(r.register_incoming(1), Registered::Fresh);
    assert!(r.begin_upgrade(1).is_some());
    assert!(r.complete_upgrade(1));
    assert_eq!(r.register_incoming(1), Registered::Duplicate);
    assert_eq!(r.register_outgoing(1), Registered::Duplicate);
}

#[test]
fn begin_upgrade_hands_back_direction() {
    let mut r = Registries::new();
    r.register_incoming(1);
    r.register_outgoing(2);
    assert_eq!(r.begin_upgrade(1), Some(Direction::Incoming));
    assert_eq!(r.begin_upgrade(2), Some(Direction::Outgoing));
}

#[test]
fn begin_upgrade_without_registration_fails() {
    let mut r = Registries::new();
    assert_eq!(r.begin_upgrade(1), None);
}

#[test]
fn begin_upgrade_consumes_the_entry() {
    let mut r = Registries::new();
    r.register_incoming(1);
    assert_eq!(r.begin_upgrade(1), Some(Direction::Incoming));
    assert_eq!(r.begin_upgrade(1), None);
}

#[test]
fn complete_upgrade_tracks_the_peer() {
    let mut r = Registries::new();
    r.register_incoming(1);
    r.begin_upgrade(1);
    assert!(!r.has_peer(1));
    assert!(r.complete_upgrade(1));
    assert!(r.has_peer(1));
}

#[test]
fn complete_upgrade_twice_reports_the_mismatch() {
    let mut r = Registries::new();
    r.register_incoming(1);
    r.begin_upgrade(1);
    assert!(r.complete_upgrade(1));
    assert!(!r.complete_upgrade(1));
}

#[test]
fn release_peer_only_once() {
    // The registry side of teardown idempotence: only the first release
    // finds the peer, so only one Stopped report can ever be sent.
    let mut r = Registries::new();
    r.register_incoming(1);
    r.begin_upgrade(1);
    r.complete_upgrade(1);
    assert!(r.release_peer(1));
    assert!(!r.release_peer(1));
    assert!(!r.has_peer(1));
}

#[test]
fn registries_stay_disjoint_in_keys() {
    // A pending id is not running, and an id taken for upgrade leaves the
    // connection registry before it may enter the peer registry.
    let mut r = Registries::new();
    assert_eq!(r.register_incoming(1), Registered::Fresh);
    assert!(!r.has_peer(1));
    assert_eq!(r.begin_upgrade(1), Some(Direction::Incoming));
    assert!(r.complete_upgrade(1));
    assert!(r.has_peer(1));
    // Running, hence absent from the connection registry.
    assert_eq!(r.begin_upgrade(1), None);
}

#[test]
fn reregistration_after_teardown_is_refused() {
    // Teardown is terminal for this supervisor: a retired id can neither
    // register again nor re-enter the peer registry.
    let mut r = Registries::new();
    r.register_incoming(1);
    r.begin_upgrade(1);
    r.complete_upgrade(1);
    assert!(r.release_peer(1));
    assert_eq!(r.register_incoming(1), Registered::Duplicate);
    assert_eq!(r.register_outgoing(1), Registered::Duplicate);
    assert!(!r.complete_upgrade(1));
}
