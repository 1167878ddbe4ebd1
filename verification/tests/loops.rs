use sfy::collection::{read_le_u16s, split_packages, split_raw_packages, RAW_AXL_SZ, RAW_PACKAGE_SZ};
use sfy::database::{storage_info_from_event, StorageInfo};
use sfy::gps::{Sample, SampleBuf, GPS_PACKET_SZ};
use sfy::imu::{FifoError, FifoRead, FifoStatus, FifoTag};
use sfy::mainloop::{artemis_iteration_due, iteration_due, DrainOutcome, SdLog};
use sfy::note::{request_step, Fetched, InfoUpdate, RequestStep};

fn sample(sec: u8) -> Sample {
    Sample {
        year: 2024,
        month: 10,
        day: 29,
        hour: 12,
        minute: 33,
        sec,
        nano: 0,
        time_acc: 20,
        lon: 103_000_000 + sec as i32,
        lat: 600_000_000 - sec as i32,
        msl: 12_000,
        hor_acc: 1_500,
        vert_acc: 2_500,
        velN: 10,
        velE: -20,
        velD: 3,
        sAcc: 50,
        fix: 3,
        soln: 1,
    }
}

#[test]
fn main_loop_cadence() {
    assert!(!iteration_due(3_000, 0, 10));
    assert!(iteration_due(3_001, 0, 10));
    assert!(iteration_due(3_001, 0, 1));
    assert!(!iteration_due(2_000, 0, 1));
    assert!(artemis_iteration_due(100, 0, true));
    assert!(!artemis_iteration_due(5_000, 0, false));
    assert!(artemis_iteration_due(5_001, 0, false));
}

#[test]
fn sd_errors_logged_once() {
    let mut l = SdLog::new();
    assert!(l.observe(DrainOutcome::Failed));
    assert!(!l.observe(DrainOutcome::Failed));
    assert!(!l.observe(DrainOutcome::Idle));
    assert!(!l.observe(DrainOutcome::Failed));
    assert!(!l.observe(DrainOutcome::Stored));
    assert!(l.observe(DrainOutcome::Failed));
}

#[test]
fn fifo_read_loop() {
    let ok = FifoStatus { samples: 7, full: false, overrun: false, latched: false };
    let mut f = FifoRead::start(ok).unwrap();
    let mut n = 0;
    while f.more(false) {
        assert_eq!(f.pair(FifoTag::Accel, FifoTag::Gyro), Ok(false));
        n += 1;
    }
    assert_eq!(n, 3);
    assert_eq!(f.samples(), 3);

    let mut f = FifoRead::start(ok).unwrap();
    assert!(!f.more(true));
    assert_eq!(f.pair(FifoTag::Gyro, FifoTag::Accel), Ok(true));
    assert_eq!(
        f.pair(FifoTag::Gyro, FifoTag::Gyro),
        Err(FifoError::BadSequence(FifoTag::Gyro, FifoTag::Gyro))
    );
    assert_eq!(f.samples(), 1);

    let bad = FifoStatus { samples: 7, full: false, overrun: true, latched: false };
    assert_eq!(FifoRead::start(bad).err(), Some(FifoError::Overrun(bad)));
}

#[test]
fn gps_sample_buffer() {
    let mut b = SampleBuf::new();
    let (last, c) = b.add(Some(sample(10)));
    assert_eq!(last, Some(sample(10)));
    assert!(c.is_none());
    b.add(Some(sample(12)));
    let mut bad = sample(13);
    bad.month = 13;
    let (last, c) = b.add(Some(bad));
    assert!(last.is_none());
    let c = c.unwrap();
    assert_eq!(b.len(), 0);
    assert_eq!(c.samples.len(), 2);
    assert_eq!(c.timestamp, 1730205190000);
    assert_eq!(c.span, 2000);
    // the reference position is the mean of the samples
    assert_eq!((c.lon, c.lat, c.msl), (103_000_011, 599_999_989, 12_000));
    assert_eq!(c.offsets, vec![(-1, 1, 0), (1, -1, 0)]);
    assert_eq!(c.fix[3], 2);
    assert_eq!(c.soln[1], 2);
    assert!(b.collect().is_none());

    // a telegram that did not parse collects too
    b.add(Some(sample(1)));
    let (_, c) = b.add(None);
    assert_eq!(c.unwrap().samples.len(), 1);

    // a full buffer is collected instead of reading another telegram
    for i in 0..GPS_PACKET_SZ {
        let (last, c) = b.add(Some(sample((i % 60) as u8)));
        assert_eq!(last, Some(sample((i % 60) as u8)));
        assert!(c.is_none());
    }
    assert!(b.is_full());
    let (last, c) = b.add(Some(sample(59)));
    assert!(last.is_none());
    assert_eq!(c.unwrap().samples.len(), GPS_PACKET_SZ);
    assert_eq!(b.len(), 0);
}

#[test]
fn collection_files() {
    let mut bytes = vec![0u8; 2 * 10240 + 5];
    bytes[10240] = 7;
    let p = split_packages(&bytes);
    assert_eq!(p.len(), 2);
    assert_eq!(p[1][0], 7);
    assert_eq!(p[0].len(), 10240);

    assert_eq!(read_le_u16s(&[1, 2, 3, 4, 5], 0, 5), vec![0x0201, 0x0403]);
    assert_eq!(read_le_u16s(&[1, 2, 3, 4, 5], 1, 5), vec![0x0302, 0x0504]);

    let mut raw = vec![0u8; RAW_PACKAGE_SZ + 3];
    raw[0] = 9;
    raw[10240] = 0x34;
    raw[10241] = 0x12;
    let r = split_raw_packages(&raw);
    assert_eq!(r.len(), 1);
    assert_eq!(r[0].0.len(), 10240);
    assert_eq!(r[0].0[0], 9);
    assert_eq!(r[0].1.len(), RAW_AXL_SZ);
    assert_eq!(r[0].1[0], 0x1234);
}

#[test]
fn storage_info_of_event() {
    let e = br#"{"event": "x", "body": {"current_id": 120, "sent_id": 99}}"#;
    assert_eq!(
        storage_info_from_event(e),
        Some(StorageInfo { current_id: Some(120), sent_id: Some(99) })
    );
    let e = br#"{"event": "x", "body": {"current_id": 120}}"#;
    assert_eq!(storage_info_from_event(e), Some(StorageInfo { current_id: Some(120), sent_id: None }));
    assert_eq!(storage_info_from_event(br#"{"event": "x"}"#), None);
    assert_eq!(storage_info_from_event(b"not json"), None);
}

#[test]
fn request_step_at_large_ids() {
    assert_eq!(
        request_step(u32::MAX - 1, u32::MAX, Fetched::Queued),
        RequestStep::Record(InfoUpdate { sent_id: Some(u32::MAX - 1), clear_request: false })
    );
    assert_eq!(request_step(u32::MAX, 5, Fetched::QueueFull), RequestStep::Halt);
}
