//! Decisions taken when reading the IMU: whether its FIFO overran, how samples
//! pair up, when the IMU looks stuck, and the time of a spectrum.
use vstd::prelude::*;

verus! {

/// Output data rates of the IMU.
#[derive(Debug, Clone, Copy, PartialEq, Eq, Structural)]
pub enum Freq {
    Hz26,
    Hz52,
    Hz104,
    Hz208,
    Hz833,
}

impl Freq {
    pub open spec fn spec_hz(self) -> nat {
        match self {
            Freq::Hz26 => 26,
            Freq::Hz52 => 52,
            Freq::Hz104 => 104,
            Freq::Hz208 => 208,
            Freq::Hz833 => 833,
        }
    }

    /// The rate in whole Hertz.
    pub fn hz(&self) -> (r: u32)
        ensures
            r == self.spec_hz(),
    {
        match self {
            Freq::Hz26 => 26,
            Freq::Hz52 => 52,
            Freq::Hz104 => 104,
            Freq::Hz208 => 208,
            Freq::Hz833 => 833,
        }
    }
}

/// The rate the IMU is run at.
pub const FREQ: Freq = Freq::Hz208;

/// Kind of a value read from the IMU FIFO.
#[derive(Debug, Clone, Copy, PartialEq, Eq, Structural)]
pub enum FifoTag {
    Gyro,
    Accel,
    Other,
}

/// State of the IMU FIFO before reading.
#[derive(Debug, Clone, Copy, PartialEq, Eq, Structural)]
pub struct FifoStatus {
    /// Number of values in the FIFO.
    pub samples: u16,
    pub full: bool,
    pub overrun: bool,
    pub latched: bool,
}

/// Number of (gyro, accel) pairs to read from the FIFO, or `None` when the FIFO
/// is full or has overrun: it has then stopped collecting and must be reset.
pub fn fifo_pairs(status: FifoStatus) -> (r: Option<u16>)
    ensures
        r == (if status.full || status.overrun || status.latched {
            None
        } else {
            Some((status.samples / 2) as u16)
        }),
{
    if status.full || status.overrun || status.latched {
        None
    } else {
        Some(status.samples / 2)
    }
}

/// Whether two consecutive FIFO values form a sample, and whether the gyro
/// value comes first.
pub open spec fn spec_pair_order(first: FifoTag, second: FifoTag) -> Option<bool> {
    match (first, second) {
        (FifoTag::Gyro, FifoTag::Accel) => Some(true),
        (FifoTag::Accel, FifoTag::Gyro) => Some(false),
        _ => None,
    }
}

/// Whether two consecutive FIFO values form a sample: one gyro and one accel
/// value, in either order. `Some(true)` when the gyro value comes first.
pub fn pair_order(first: FifoTag, second: FifoTag) -> (r: Option<bool>)
    ensures
        r == (match (first, second) {
            (FifoTag::Gyro, FifoTag::Accel) => Some(true),
            (FifoTag::Accel, FifoTag::Gyro) => Some(false),
            _ => None,
        }),
{
    match (first, second) {
        (FifoTag::Gyro, FifoTag::Accel) => Some(true),
        (FifoTag::Accel, FifoTag::Gyro) => Some(false),
        _ => None,
    }
}

/// Offset in the FIFO, in samples (a gyro and an accel value), for a FIFO
/// holding `values` values.
pub fn fifo_offset(values: u16) -> (r: u16)
    ensures
        r == values / 2,
{
    values / 2
}

/// Start time (milliseconds) of the samples of a spectrum: the time the
/// spectrum was started at, less the duration of the samples that were
/// already in the FIFO then.
pub fn spectrum_start(timestamp: i64, fifo_offset: u16, freq: Freq) -> (r: i64)
    requires
        i64::MIN <= timestamp - (fifo_offset as int * 1000) / (freq.spec_hz() as int),
    ensures
        r == timestamp - (fifo_offset as int * 1000) / (freq.spec_hz() as int),
{
    let hz = freq.hz() as i64;
    let d = (fifo_offset as i64) * 1000 / hz;
    timestamp - d
}

/// Smallest silence (milliseconds) before the IMU is considered stuck.
pub const STUCK_AFTER: i64 = 3000;

/// Silences of this many milliseconds or more are jumps of the clock (such as
/// when the clock is set), not a stuck IMU.
pub const CLOCK_JUMP: i64 = 1_000_000;

/// Keeps track of the last time samples came from the IMU, to notice when it
/// stops delivering them.
pub struct SampleWatch {
    last_read: i64,
}

impl SampleWatch {
    pub closed spec fn spec_last_read(&self) -> i64 {
        self.last_read
    }

    pub fn new() -> (w: SampleWatch)
        ensures
            w.spec_last_read() == 0,
    {
        SampleWatch { last_read: 0 }
    }

    /// The IMU was (re)started at `now`: it is not stuck before `STUCK_AFTER`
    /// milliseconds have passed.
    pub fn reset(&mut self, now: i64)
        ensures
            final(self).spec_last_read() == now,
    {
        self.last_read = now;
    }

    /// Record a poll at `now` that gave `samples` samples. Returns the time
    /// (milliseconds) without samples when the IMU looks stuck: no samples for
    /// more than `STUCK_AFTER` but less than `CLOCK_JUMP` milliseconds. The
    /// last read time moves to `now` whenever samples came, or when the IMU is
    /// reported stuck.
    pub fn check(&mut self, now: i64, samples: u32) -> (r: Option<i64>)
        requires
            samples == 0 ==> i64::MIN <= now - old(self).spec_last_read() <= i64::MAX,
        ensures
            ({
                let elapsed = now - old(self).spec_last_read();
                if samples == 0 {
                    if elapsed > STUCK_AFTER && elapsed < CLOCK_JUMP {
                        r == Some(elapsed as i64) && final(self).spec_last_read() == now
                    } else {
                        r is None && final(self).spec_last_read() == old(self).spec_last_read()
                    }
                } else {
                    r is None && final(self).spec_last_read() == now
                }
            }),
    {
        if samples == 0 {
            let elapsed = now - self.last_read;
            if elapsed > STUCK_AFTER && elapsed < CLOCK_JUMP {
                self.last_read = now;
                return Some(elapsed);
            }
            None
        } else {
            self.last_read = now;
            None
        }
    }
}

/// Time reference of the package being collected: the time at which the
/// package was started, the position time then, and how many samples were
/// already waiting in the FIFO at that time.
#[derive(Debug, Clone, Copy, PartialEq, Eq, Structural)]
pub struct PackageClock {
    /// Timestamp [ms] of the sample at `fifo_offset`.
    pub timestamp: i64,
    /// Time of the position [s].
    pub position_time: u32,
    /// Offset in the FIFO, in samples, when the timestamp was set.
    pub fifo_offset: u16,
}

impl PackageClock {
    pub fn new() -> (c: PackageClock)
        ensures
            c == (PackageClock { timestamp: 0, position_time: 0, fifo_offset: 0 }),
    {
        PackageClock { timestamp: 0, position_time: 0, fifo_offset: 0 }
    }

    /// After a reset of the IMU the first package is off in timing: its time
    /// reference is cleared.
    pub fn reset(&mut self)
        ensures
            *final(self) == (PackageClock { timestamp: 0, fifo_offset: 0, ..*old(self) }),
    {
        self.timestamp = 0;
        self.fifo_offset = 0;
    }

    /// Close the package being collected: returns its time reference, and
    /// starts the next package at `now` with the given position time, with
    /// `fifo_values` values (half as many samples) waiting in the FIFO.
    pub fn take(&mut self, now: i64, position_time: u32, fifo_values: u16) -> (r: PackageClock)
        ensures
            r == *old(self),
            *final(self) == (PackageClock {
                timestamp: now,
                position_time,
                fifo_offset: (fifo_values / 2) as u16,
            }),
    {
        let r = *self;
        self.timestamp = now;
        self.position_time = position_time;
        self.fifo_offset = fifo_offset(fifo_values);
        r
    }
}

/// Why reading the FIFO stopped with an error.
#[derive(Debug, Clone, Copy, PartialEq, Eq, Structural)]
pub enum FifoError {
    /// The FIFO was full or overran: it must be reset.
    Overrun(FifoStatus),
    /// Two consecutive values did not form a (gyro, accel) pair.
    BadSequence(FifoTag, FifoTag),
}

/// Progress of reading the (gyro, accel) pairs waiting in the FIFO into the
/// sample buffer.
pub struct FifoRead {
    pairs: u16,
    read: u32,
}

impl FifoRead {
    /// Pairs waiting in the FIFO when reading started.
    pub closed spec fn spec_pairs(&self) -> u16 {
        self.pairs
    }

    /// Pairs read so far.
    pub closed spec fn spec_read(&self) -> u32 {
        self.read
    }

    pub closed spec fn wf(&self) -> bool {
        self.read <= self.pairs
    }

    /// Start reading a FIFO in state `status`: an error when it is full or
    /// has overrun, otherwise half its values are pairs to read.
    pub fn start(status: FifoStatus) -> (r: Result<FifoRead, FifoError>)
        ensures
            match r {
                Ok(f) => !(status.full || status.overrun || status.latched) && f.wf()
                    && f.spec_pairs() == status.samples / 2 && f.spec_read() == 0,
                Err(e) => (status.full || status.overrun || status.latched) && e == FifoError::Overrun(status),
            },
    {
        match fifo_pairs(status) {
            Some(n) => Ok(FifoRead { pairs: n, read: 0 }),
            None => Err(FifoError::Overrun(status)),
        }
    }

    /// Whether to take the next pair from the FIFO: while pairs are left and
    /// the buffer (`buf_full`: the sample buffer, or the spectrum) has room.
    pub fn more(&self, buf_full: bool) -> (r: bool)
        ensures
            r == ((self.spec_read() as int) < (self.spec_pairs() as int) && !buf_full),
    {
        (self.read as u64) < (self.pairs as u64) && !buf_full
    }

    /// A pair of values taken from the FIFO: a sample (`Ok(true)` when the
    /// gyro value came first) that counts as read, or a bad sequence, which
    /// ends the reading with an error.
    pub fn pair(&mut self, first: FifoTag, second: FifoTag) -> (r: Result<bool, FifoError>)
        requires
            old(self).wf(),
            (old(self).spec_read() as int) < (old(self).spec_pairs() as int),
        ensures
            final(self).wf(),
            final(self).spec_pairs() == old(self).spec_pairs(),
            match spec_pair_order(first, second) {
                Some(g) => r == Ok::<bool, FifoError>(g) && final(self).spec_read() == old(self).spec_read() + 1,
                None => r == Err::<bool, FifoError>(FifoError::BadSequence(first, second))
                    && final(self).spec_read() == old(self).spec_read(),
            },
    {
        match pair_order(first, second) {
            Some(g) => {
                self.read = self.read + 1;
                Ok(g)
            },
            None => Err(FifoError::BadSequence(first, second)),
        }
    }

    /// Number of samples read, never more than the pairs that were waiting.
    pub fn samples(&self) -> (n: u32)
        requires
            self.wf(),
        ensures
            n == self.spec_read(),
            n <= self.spec_pairs(),
    {
        self.read
    }
}

/// Each rate is the number of Hertz in its name.
pub proof fn lemma_freq_hz()
    ensures
        Freq::Hz26.spec_hz() == 26,
        Freq::Hz52.spec_hz() == 52,
        Freq::Hz104.spec_hz() == 104,
        Freq::Hz208.spec_hz() == 208,
        Freq::Hz833.spec_hz() == 833,
{
}

} // verus!
