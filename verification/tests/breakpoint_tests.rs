//! Breakpoint-table round trips.

use debug_sessions::breakpoints::BreakpointTable;

#[test]
fn breakpoint_round_trip() {
    let mut table = BreakpointTable::new();
    assert_eq!(table.count(), 0);

    let id = table.record(0x1000);
    assert_eq!(id, 0);
    assert_eq!(table.count(), 1);
    let listed = table.list();
    assert_eq!(listed, vec![(0, 0x1000)]);

    assert_eq!(table.forget(0x1000), Some(0));
    assert_eq!(table.count(), 0);
    assert!(table.list().is_empty());

    // Clearing an address with no recorded breakpoint is a no-op.
    assert_eq!(table.forget(0x1000), None);
    assert_eq!(table.count(), 0);
}

#[test]
fn recording_twice_at_one_address_replaces_the_entry() {
    let mut table = BreakpointTable::new();
    let first = table.record(0x2000_0000);
    let second = table.record(0x2000_0000);
    assert_eq!(first, 0);
    assert_eq!(second, 1);
    assert_eq!(table.count(), 1);
    assert_eq!(table.list(), vec![(1, 0x2000_0000)]);
}

#[test]
fn distinct_addresses_are_kept_apart() {
    let mut table = BreakpointTable::new();
    let a = table.record(0x1000);
    let b = table.record(0x2000);
    assert_eq!(table.count(), 2);
    assert_eq!(table.lookup(0x1000), Some(a));
    assert_eq!(table.lookup(0x2000), Some(b));
    assert_eq!(table.lookup(0x3000), None);

    assert_eq!(table.forget(0x1000), Some(a));
    assert_eq!(table.lookup(0x2000), Some(b));
    assert_eq!(table.count(), 1);
}
