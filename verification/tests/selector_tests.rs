//! Probe-selector resolution and the index parser behind it.

use debug_sessions::DebugError;
use debug_sessions::registry::{parse_index, resolve_probe_selector};
use debug_sessions::session::ProbeInfo;

fn probe(identifier: &str, serial: Option<&str>) -> ProbeInfo {
    ProbeInfo {
        identifier: identifier.to_string(),
        vendor_id: 0x1366,
        product_id: 0x0105,
        serial_number: serial.map(|s| s.to_string()),
        probe_type: "JLink".to_string(),
    }
}

#[test]
fn parse_index_accepts_plain_decimal_only() {
    assert_eq!(parse_index("0"), Some(0));
    assert_eq!(parse_index("1000"), Some(1000));
    assert_eq!(parse_index(""), None);
    assert_eq!(parse_index("0x10"), None);
    assert_eq!(parse_index("+5"), None);
    assert_eq!(parse_index("12a"), None);
    // usize::MAX itself still parses on 64-bit targets; one past it does
    // not.
    assert_eq!(parse_index("18446744073709551615"), Some(usize::MAX));
    assert_eq!(parse_index("18446744073709551616"), None);
}

#[test]
fn auto_selects_the_first_probe() {
    let probes = vec![probe("first", None), probe("second", Some("S2"))];
    assert_eq!(resolve_probe_selector("auto", &probes), Ok(0));
}

#[test]
fn auto_with_no_probes_fails_with_probe_not_found() {
    let probes: Vec<ProbeInfo> = vec![];
    assert!(matches!(
        resolve_probe_selector("auto", &probes),
        Err(DebugError::ProbeNotFound(_))
    ));
}

#[test]
fn numeric_selectors_index_the_probe_list() {
    let probes = vec![probe("first", None), probe("second", Some("S2"))];
    assert_eq!(resolve_probe_selector("0", &probes), Ok(0));
    assert_eq!(resolve_probe_selector("1", &probes), Ok(1));
    assert!(matches!(
        resolve_probe_selector("2", &probes),
        Err(DebugError::ProbeNotFound(_))
    ));
}

#[test]
fn other_selectors_match_serial_numbers() {
    let probes = vec![
        probe("first", None),
        probe("second", Some("ABC123")),
        probe("third", Some("ABC123")),
    ];
    // The first probe carrying the serial wins.
    assert_eq!(resolve_probe_selector("ABC123", &probes), Ok(1));
    assert!(matches!(
        resolve_probe_selector("missing", &probes),
        Err(DebugError::ProbeNotFound(_))
    ));
}
