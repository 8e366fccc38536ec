//! Session-level helpers: the halt-reason sentinel, duration clamping,
//! error construction, and the tool-facing defaults.

use debug_sessions::DebugError;
use debug_sessions::session::{elapsed_ms, halt_reason_text};
use debug_sessions::types::{
    default_auto_format, default_breakpoint_type, default_encoding, default_erase_all,
    default_format, default_max_bytes, default_reset_type, default_rtt_timeout, default_speed_khz,
    default_timeout_ms, default_true,
};

#[test]
fn halt_reason_is_none_while_running() {
    assert_eq!(halt_reason_text(false, Ok(Some("Breakpoint".to_string()))), None);
    assert_eq!(halt_reason_text(false, Err("bus fault".to_string())), None);
}

#[test]
fn halt_reason_passes_the_reported_reason_through() {
    assert_eq!(
        halt_reason_text(true, Ok(Some("Breakpoint".to_string()))),
        Some("Breakpoint".to_string())
    );
}

#[test]
fn failed_reason_lookup_substitutes_the_sentinel() {
    // A reason-lookup failure after a confirmed halt never fails the
    // status call: the sentinel stands in.
    assert_eq!(
        halt_reason_text(true, Err("lookup failed".to_string())),
        Some("Unknown".to_string())
    );
    assert_eq!(halt_reason_text(true, Ok(None)), Some("Unknown".to_string()));
}

#[test]
fn elapsed_clamps_a_backwards_clock_to_zero() {
    assert_eq!(elapsed_ms(10, 25), 15);
    assert_eq!(elapsed_ms(25, 25), 0);
    assert_eq!(elapsed_ms(25, 10), 0);
}

#[test]
fn error_constructors_keep_operation_context() {
    match DebugError::internal("Failed to halt: ", "timeout".to_string()) {
        DebugError::InternalError(m) => assert_eq!(m, "Failed to halt: timeout"),
        _ => panic!("expected InternalError"),
    }
    match DebugError::connection("Failed to attach: ", "no target".to_string()) {
        DebugError::ConnectionFailed(m) => assert_eq!(m, "Failed to attach: no target"),
        _ => panic!("expected ConnectionFailed"),
    }
    match DebugError::config("Unknown register: ", "bogus".to_string()) {
        DebugError::InvalidConfig(m) => assert_eq!(m, "Unknown register: bogus"),
        _ => panic!("expected InvalidConfig"),
    }
}

#[test]
fn test_error_types() {
    let error = DebugError::ProbeNotFound("test".to_string());
    assert!(error.describe().contains("Probe not found"));

    let error = DebugError::SessionLimitExceeded(5);
    assert!(error.describe().contains("Session limit exceeded"));
}

#[test]
fn errors_render_their_details() {
    assert_eq!(
        DebugError::SessionLimitExceeded(5).describe(),
        "Session limit exceeded: 5"
    );
    assert_eq!(
        DebugError::InvalidAddress(4096).describe(),
        "Invalid address: 4096"
    );
    assert_eq!(
        DebugError::InvalidSession("session_x".to_string()).describe(),
        "Invalid session: session_x"
    );
}

#[test]
fn decimal_rendering_is_exact() {
    assert_eq!(debug_sessions::dec_string(0), "0");
    assert_eq!(debug_sessions::dec_string(10), "10");
    assert_eq!(debug_sessions::dec_string(12345), "12345");
    assert_eq!(debug_sessions::dec_string(u64::MAX), "18446744073709551615");
}

#[test]
fn tool_defaults_match_the_documented_values() {
    assert_eq!(default_speed_khz(), 4000);
    assert!(default_true());
    assert_eq!(default_reset_type(), "hardware");
    assert_eq!(default_format(), "hex");
    assert_eq!(default_breakpoint_type(), "hardware");
    assert_eq!(default_erase_all(), "all");
    assert_eq!(default_auto_format(), "auto");
    assert_eq!(default_rtt_timeout(), 3000);
    assert_eq!(default_max_bytes(), 1024);
    assert_eq!(default_timeout_ms(), 1000);
    assert_eq!(default_encoding(), "utf8");
}
