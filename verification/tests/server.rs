use sfy::axl::{payload, post_event, to_le_bytes};
use sfy::database::{
    entry_key, omb_entry_key, omb_event_name, split_entry_key, split_omb_entry_key, BuoyRecord,
    BuoyType, OmbMessageType, QueryError,
};
use sfy::server::{device_dir, device_name, event_file_name, parse_data, raw_event_file_name, token_accepted, Event, EventError};

#[test]
fn buoy_type_names() {
    assert_eq!(BuoyType::SFY.to_str(), "sfy");
    assert_eq!(BuoyType::OMB.to_str(), "omb");
    assert_eq!(BuoyType::Unknown.to_str(), "unknown");
    assert_eq!(BuoyType::from_name("sfy"), BuoyType::SFY);
    assert_eq!(BuoyType::from_name("omb"), BuoyType::OMB);
    assert_eq!(BuoyType::from_name("other"), BuoyType::Unknown);
    assert_eq!(OmbMessageType::GPS.to_str(), "gps");
    assert_eq!(OmbMessageType::IMU.to_str(), "imu");
    assert_eq!(OmbMessageType::from_name("imu"), OmbMessageType::IMU);
    assert_eq!(OmbMessageType::from_name("unknown"), OmbMessageType::Unknown);
}

#[test]
fn entry_keys() {
    assert_eq!(entry_key(0, "entry-0"), "0-entry-0");
    assert_eq!(entry_key(1653994017660, "ev"), "1653994017660-ev");
    assert_eq!(entry_key(-5, "ev"), "-5-ev");
    assert_eq!(omb_entry_key(12, "ev", "gps"), "12-ev-gps");
    assert_eq!(omb_event_name("ev", "imu"), "ev-imu");
    assert_eq!(split_entry_key("0-entry-0"), Some(("0".to_string(), "entry-0".to_string())));
    assert_eq!(split_entry_key("noseparator"), None);
    assert_eq!(
        split_omb_entry_key("12-ev-gps-x"),
        Some(("12".to_string(), "ev".to_string(), "gps-x".to_string()))
    );
    assert_eq!(split_omb_entry_key("12-ev"), None);
}

#[test]
fn buoy_records() {
    let b = BuoyRecord::from_row("buoy-01".into(), None);
    assert!(!b.known);
    assert_eq!(b.buoy_type, BuoyType::Unknown);
    assert_eq!(b.readable(), Err(QueryError::NoSuchBuoy));

    let mut b = BuoyRecord::from_row("buoy-01".into(), Some((Some("n1".into()), "sfy".into())));
    assert!(b.known);
    assert_eq!(b.readable(), Ok(BuoyType::SFY));
    assert_eq!(b.storage_info_readable(), Ok(()));
    assert!(!b.prepare_append(&None));
    assert!(!b.prepare_append(&Some("n1".into())));
    assert!(b.prepare_append(&Some("n2".into())));
    b.row_written();
    assert!(b.known);

    let mut o = BuoyRecord::from_row("omb".into(), None);
    assert!(o.prepare_append_omb());
    o.row_written();
    assert!(!o.prepare_append_omb());
    assert_eq!(o.storage_info_readable(), Err(QueryError::OnlySfy));

    let u = BuoyRecord::from_row("x".into(), Some((None, "weird".into())));
    assert_eq!(u.readable(), Err(QueryError::UnknownBuoyType));
}

#[test]
fn parse_posted_events() {
    let body = br#"{"event": "9ef2e080", "device": "dev:864475044203262", "file": "sensor.db", "body": {}}"#;
    let e = parse_data(body).unwrap();
    assert_eq!(e.event, "9ef2e080");
    assert_eq!(e.device, "dev:864475044203262");
    assert_eq!(e.file, Some("sensor.db".to_string()));
    assert_eq!(event_file_name(&e), "9ef2e080_sensor.db.json");
    assert_eq!(device_dir(&e.device), "dev864475044203262");

    let bad = br#"{ "noevent": "asdf", "something": "hey", bad json even }"#;
    assert_eq!(parse_data(bad), Err(EventError::NoEvent));
    let nodev = br#"{"event": "e"}"#;
    assert_eq!(parse_data(nodev), Err(EventError::NoDevice));

    let e = Event { event: "e".into(), device: "d".into(), file: None };
    assert_eq!(raw_event_file_name(&e), "e___unnamed__.json");
}

#[test]
fn tokens_and_devices() {
    let tokens = vec!["token1".to_string(), "token2".to_string()];
    assert!(token_accepted(&tokens, &"token2".to_string()));
    assert!(!token_accepted(&tokens, &"wrong-token".to_string()));
    assert_eq!(device_name("buoy%2001"), "buoy 01");
    assert_eq!(device_name("buoy-01"), "buoy-01");
}

#[test]
fn payload_encoding() {
    assert_eq!(to_le_bytes(&[0x0102, 0xff00]), vec![0x02, 0x01, 0x00, 0xff]);
    assert_eq!(payload(&[0, 1, 2]), b"AAABAAIA".to_vec());
    let data: Vec<u16> = (0..3072u16).collect();
    assert_eq!(payload(&data).len(), 8192);
    assert_eq!(post_event(&Some("dev:1".to_string()), 1730205219000), "post-event-dev:11730205219000");
    assert_eq!(post_event(&None, 5), "post-event-unknown5");
}
