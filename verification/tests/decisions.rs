use sfy::buf::{Error, ImuBuf};
use sfy::fir::{Decimation, DECIMATE};
use sfy::gps::{feed, frame, ParseState};
use sfy::imu::{fifo_offset, fifo_pairs, pair_order, spectrum_start, FifoStatus, FifoTag, Freq, SampleWatch};
use sfy::location::{after_retrieve, egps_clock, EgpsClock, LocationState, LOCATION_DIFF};
use sfy::notei2c::{query_result, request_writes, Note, NoteError, NoteState};
use sfy::temp::{temps_step, TempsAction, TempsState};
use sfy::wire::A16;

#[test]
fn location_retrieval_debounced() {
    let s = LocationState::new();
    assert_eq!(s, LocationState::Trying(-999));
    assert!(s.due(60_000, LOCATION_DIFF));
    assert!(!LocationState::Trying(10).due(60_010, LOCATION_DIFF));
    assert!(LocationState::Retrieved(10).due(60_011, LOCATION_DIFF));
    assert_eq!(after_retrieve(5, Some(100), true), LocationState::Retrieved(100_000));
    assert_eq!(after_retrieve(5, Some(100), false), LocationState::Trying(5));
    assert_eq!(after_retrieve(5, None, true), LocationState::Trying(5));
    // the notecard time is scaled to milliseconds without wrapping around
    let t: u32 = 1_700_000_000;
    assert_eq!(after_retrieve(5, Some(t), true), LocationState::Retrieved(1_700_000_000_000));
}

#[test]
fn egps_sets_clock() {
    let s = LocationState::Trying(0);
    assert_eq!(egps_clock(s, 5_000, 4_000, 100_000), (EgpsClock::NotDue, s));
    assert_eq!(
        egps_clock(s, 20_000, 19_000, 100_000),
        (EgpsClock::SetTo(101_000), LocationState::Retrieved(100_000))
    );
    assert_eq!(egps_clock(s, 20_000, 10_000, 100_000), (EgpsClock::Stale, s));
}

#[test]
fn imu_stuck_detection() {
    let mut w = SampleWatch::new();
    assert_eq!(w.check(1000, 0), None);
    assert_eq!(w.check(2000, 5), None);
    assert_eq!(w.check(4000, 0), None);
    assert_eq!(w.check(5001, 0), Some(3001));
    assert_eq!(w.check(6000, 0), None);
    // a jump of the clock is not a stuck IMU
    assert_eq!(w.check(10_000_000, 0), None);
    w.reset(10_000_000);
    assert_eq!(w.check(10_003_001, 0), Some(3001));
}

#[test]
fn fifo_reading() {
    let ok = FifoStatus { samples: 101, full: false, overrun: false, latched: false };
    assert_eq!(fifo_pairs(ok), Some(50));
    assert_eq!(fifo_pairs(FifoStatus { overrun: true, ..ok }), None);
    assert_eq!(fifo_pairs(FifoStatus { full: true, ..ok }), None);
    assert_eq!(fifo_pairs(FifoStatus { latched: true, ..ok }), None);
    assert_eq!(pair_order(FifoTag::Gyro, FifoTag::Accel), Some(true));
    assert_eq!(pair_order(FifoTag::Accel, FifoTag::Gyro), Some(false));
    assert_eq!(pair_order(FifoTag::Gyro, FifoTag::Gyro), None);
    assert_eq!(pair_order(FifoTag::Other, FifoTag::Accel), None);
    assert_eq!(fifo_offset(9), 4);
    assert_eq!(spectrum_start(10_000, 208, Freq::Hz208), 9_000);
    assert_eq!(Freq::Hz833.hz(), 833);
}

#[test]
fn imu_buffer_holds_whole_samples() {
    let mut b = ImuBuf::new();
    assert_eq!(b.capacity(), 1024);
    assert_eq!(b.len(), 0);
    assert_eq!(b.free(), 1024);
    // one sample in DECIMATE is kept, starting with the first
    let mut calls = 0u32;
    while !b.is_full() {
        let i = (calls / DECIMATE as u32) as u16;
        assert_eq!(b.sample(A16(i), A16(i + 1), A16(i + 2)), Ok(()));
        calls += 1;
    }
    assert_eq!(calls, 1023 * DECIMATE as u32 + 1);
    assert_eq!(b.free(), 0);
    assert_eq!(b.sample(A16(0), A16(0), A16(0)), Err(Error::BufFull));
    let (data,) = b.take_buf();
    assert_eq!(data.len(), 3072);
    assert_eq!(&data[..6], &[0, 1, 2, 1, 2, 3]);
    assert_eq!(b.len(), 0);
    b.reset();
    b.sample(A16(7), A16(8), A16(9)).unwrap();
    assert_eq!(b.len(), 1);
    b.sample(A16(7), A16(8), A16(9)).unwrap();
    assert_eq!(b.len(), 1);
    b.reset();
    assert_eq!(b.len(), 0);
}

#[test]
fn filter_decimater() {
    const SAMPLE_NO: usize = 1024;
    let mut buf = ImuBuf::new();
    for _ in 0..SAMPLE_NO {
        assert_eq!(buf.sample(A16(0), A16(1), A16(2)), Ok(()));
    }
    assert_eq!(buf.axl.len(), 3 * SAMPLE_NO / DECIMATE as usize);
    assert_eq!(buf.free(), 3072 / 3 - SAMPLE_NO / DECIMATE as usize);
}

#[test]
fn decimation() {
    let mut d = Decimation::new();
    let outs: Vec<bool> = (0..(2 * DECIMATE as usize + 1)).map(|_| d.tick()).collect();
    let idx: Vec<usize> = outs.iter().enumerate().filter(|(_, o)| **o).map(|(i, _)| i).collect();
    assert_eq!(idx, vec![0, 16, 32]);
    d.reset();
    assert!(d.tick());
}

#[test]
fn temperature_sampling() {
    let (a, s) = temps_step(TempsState::Ready(0), 999, 750);
    assert_eq!((a, s), (TempsAction::Nothing, TempsState::Ready(0)));
    let (a, s) = temps_step(s, 1000, 750);
    assert_eq!((a, s), (TempsAction::StartMeasurement, TempsState::Sampling(1000)));
    let (a, s) = temps_step(s, 1500, 750);
    assert_eq!((a, s), (TempsAction::Nothing, TempsState::Sampling(1000)));
    let (a, s) = temps_step(s, 1750, 750);
    assert_eq!((a, s), (TempsAction::ReadAll, TempsState::Ready(1750)));
    let (a, s) = temps_step(s, 100, 750);
    assert_eq!((a, s), (TempsAction::Nothing, TempsState::Failed(100)));
}

#[test]
fn gps_telegram_framing() {
    assert_eq!(feed(ParseState::StartBracket, b'x'), (ParseState::StartBracket, false));
    assert_eq!(feed(ParseState::StartBracket, b'{'), (ParseState::Body, true));
    assert_eq!(feed(ParseState::Body, b'}'), (ParseState::EndBracket, true));
    let (t, done) = frame(&b"noise{\"year\": 2024}tail".to_vec());
    assert_eq!(t, b"{\"year\": 2024}".to_vec());
    assert!(done);
    let (t, done) = frame(&b"xx{\"ye".to_vec());
    assert_eq!(t, b"{\"ye".to_vec());
    assert!(!done);
    let (t, done) = frame(&b"nothing".to_vec());
    assert!(t.is_empty() && !done);
    let mut long = vec![b'{'];
    long.extend(std::iter::repeat(b'a').take(2000));
    long.push(b'}');
    let (t, done) = frame(&long);
    assert_eq!(t.len(), 1024);
    assert!(done);
}

#[test]
fn notecard_protocol() {
    let mut n = Note::new();
    assert!(n.needs_handshake());
    assert_eq!(n.request_writes(b"{}"), Err(NoteError::WrongState));
    n.handshake_done();
    assert_eq!(n.state(), NoteState::Request);
    let w = n.request_writes(b"{\"req\":\"card.time\"}").unwrap();
    assert_eq!(w.len(), 4);
    assert_eq!(w[0], vec![19u8]);
    assert_eq!(w[1], b"{\"req\":\"card.time\"}".to_vec());
    assert_eq!(w[2], vec![1u8]);
    assert_eq!(w[3], vec![b'\n']);
    n.requested();
    assert_eq!(n.state(), NoteState::Poll(0));

    let cmd = vec![b'a'; 600];
    let w = request_writes(&cmd);
    assert_eq!(w.len(), 8);
    assert_eq!(w[0], vec![255u8]);
    assert_eq!(w[1].len(), 255);
    assert_eq!(w[2], vec![255u8]);
    assert_eq!(w[4], vec![90u8]);
    assert_eq!(w[5].len(), 90);
    assert_eq!(request_writes(&[]).len(), 2);

    assert_eq!(query_result(12, 0), Ok(12));
    assert_eq!(query_result(12, 1), Err(NoteError::RemainingData));
}
