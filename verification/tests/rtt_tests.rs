//! RTT attachment bookkeeping and channel guards.

use debug_sessions::DebugError;
use debug_sessions::rtt::{
    assemble_channels, channel_name_or_default, check_rtt_read, check_rtt_write,
    ChannelDirection, RttChannelInfo, RttInfo,
};

fn sample_attachment() -> RttInfo {
    RttInfo {
        control_block_address: 0x2000_0400,
        channels: vec![
            RttChannelInfo {
                index: 0,
                name: "Terminal".to_string(),
                direction: ChannelDirection::Up,
                buffer_size: 1024,
            },
            RttChannelInfo {
                index: 1,
                name: "Unknown".to_string(),
                direction: ChannelDirection::Up,
                buffer_size: 256,
            },
            RttChannelInfo {
                index: 0,
                name: "Terminal".to_string(),
                direction: ChannelDirection::Down,
                buffer_size: 16,
            },
        ],
    }
}

#[test]
fn read_while_detached_fails_with_invalid_config() {
    match check_rtt_read(&None, 0) {
        Err(DebugError::InvalidConfig(m)) => assert_eq!(m, "RTT not attached"),
        _ => panic!("expected InvalidConfig"),
    }
}

#[test]
fn read_guard_follows_attach_and_detach() {
    // Before any attach the guard refuses.
    assert!(check_rtt_read(&None, 0).is_err());

    // After an attach a recorded up channel passes the guard.
    let attached = Some(sample_attachment());
    assert!(check_rtt_read(&attached, 0).is_ok());
    assert!(check_rtt_read(&attached, 1).is_ok());

    // A detach clears the attachment wholesale; the same read is
    // refused again with the same error kind.
    let detached: Option<RttInfo> = None;
    match check_rtt_read(&detached, 0) {
        Err(DebugError::InvalidConfig(m)) => assert_eq!(m, "RTT not attached"),
        _ => panic!("expected InvalidConfig"),
    }
}

#[test]
fn missing_channel_indices_are_refused() {
    let attached = Some(sample_attachment());
    match check_rtt_read(&attached, 2) {
        Err(DebugError::InvalidConfig(m)) => assert_eq!(m, "RTT up channel not found: 2"),
        _ => panic!("expected InvalidConfig"),
    }
    match check_rtt_write(&attached, 1) {
        Err(DebugError::InvalidConfig(m)) => assert_eq!(m, "RTT down channel not found: 1"),
        _ => panic!("expected InvalidConfig"),
    }
    assert!(check_rtt_write(&attached, 0).is_ok());
}

#[test]
fn write_while_detached_fails_with_invalid_config() {
    match check_rtt_write(&None, 0) {
        Err(DebugError::InvalidConfig(m)) => assert_eq!(m, "RTT not attached"),
        _ => panic!("expected InvalidConfig"),
    }
}

#[test]
fn assembled_channels_keep_metadata_order_and_defaults() {
    let ups = vec![
        (Some("Terminal".to_string()), 1024),
        (None, 256),
    ];
    let downs = vec![(Some("Input".to_string()), 16)];
    let channels = assemble_channels(ups, downs);

    assert_eq!(channels.len(), 3);
    assert_eq!(channels[0].index, 0);
    assert_eq!(channels[0].name, "Terminal");
    assert_eq!(channels[0].direction, ChannelDirection::Up);
    assert_eq!(channels[0].buffer_size, 1024);
    assert_eq!(channels[1].index, 1);
    assert_eq!(channels[1].name, "Unknown");
    assert_eq!(channels[1].direction, ChannelDirection::Up);
    assert_eq!(channels[1].buffer_size, 256);
    assert_eq!(channels[2].index, 0);
    assert_eq!(channels[2].name, "Input");
    assert_eq!(channels[2].direction, ChannelDirection::Down);
    assert_eq!(channels[2].buffer_size, 16);
}

#[test]
fn unnamed_channels_are_recorded_as_unknown() {
    assert_eq!(channel_name_or_default(None), "Unknown");
    assert_eq!(
        channel_name_or_default(Some("Terminal".to_string())),
        "Terminal"
    );
}
