//! Registry lifecycle and capacity behaviour that needs no probe
//! hardware.

use debug_sessions::DebugError;
use debug_sessions::registry::DebugSessionManager;

#[test]
fn fresh_registry_is_empty() {
    let manager = DebugSessionManager::new(5);
    assert_eq!(manager.session_count(), 0);
    assert!(manager.list_sessions().is_empty());
}

#[test]
fn get_unknown_session_fails_with_invalid_session() {
    let manager = DebugSessionManager::new(5);
    match manager.get_session("session_missing") {
        Err(DebugError::InvalidSession(id)) => assert_eq!(id, "session_missing"),
        _ => panic!("expected InvalidSession"),
    }
}

#[test]
fn session_index_of_unknown_session_fails() {
    let manager = DebugSessionManager::new(5);
    assert!(matches!(
        manager.session_index("nope"),
        Err(DebugError::InvalidSession(_))
    ));
}

#[test]
fn close_unknown_session_fails_with_invalid_session() {
    let mut manager = DebugSessionManager::new(5);
    assert!(matches!(
        manager.close_session("session_missing"),
        Err(DebugError::InvalidSession(_))
    ));
    assert_eq!(manager.session_count(), 0);
}

#[test]
fn create_session_at_capacity_fails_with_session_limit_exceeded() {
    // With capacity zero the registry is at capacity from the start, so
    // the very first creation is rejected before any probe is opened.
    let mut manager = DebugSessionManager::new(0);
    match manager.create_session("auto".to_string(), "STM32F407VGTx".to_string(), 4000, false) {
        Err(DebugError::SessionLimitExceeded(max)) => assert_eq!(max, 0),
        _ => panic!("expected SessionLimitExceeded"),
    }
    assert_eq!(manager.session_count(), 0);
}

#[test]
fn list_probes_reports_a_list() {
    let manager = DebugSessionManager::new(1);
    // Probe enumeration itself never fails; without connected hardware
    // it reports an empty list.
    assert!(manager.list_probes().is_ok());
}
