//! Framing of telegrams from the external GPS: each sample arrives over the
//! serial line as one JSON object, from `{` to `}`.
use vstd::prelude::*;

verus! {

/// Where the framing is in the current telegram.
#[derive(Debug, Clone, Copy, PartialEq, Eq, Structural)]
pub enum ParseState {
    /// Waiting for the opening bracket; anything before it is skipped.
    StartBracket,
    /// Inside the telegram.
    Body,
    /// The closing bracket was read: the telegram is complete.
    EndBracket,
}

/// Feed one byte read from the serial line. Returns the new state and whether
/// the byte belongs to the telegram.
pub fn feed(state: ParseState, byte: u8) -> (r: (ParseState, bool))
    ensures
        r == (match state {
            ParseState::StartBracket => if byte == 0x7b {
                (ParseState::Body, true)
            } else {
                (ParseState::StartBracket, false)
            },
            ParseState::Body => if byte == 0x7d {
                (ParseState::EndBracket, true)
            } else {
                (ParseState::Body, true)
            },
            ParseState::EndBracket => (ParseState::EndBracket, false),
        }),
{
    match state {
        ParseState::StartBracket => {
            if byte == 0x7b {
                (ParseState::Body, true)
            } else {
                (ParseState::StartBracket, false)
            }
        },
        ParseState::Body => {
            if byte == 0x7d {
                (ParseState::EndBracket, true)
            } else {
                (ParseState::Body, true)
            }
        },
        ParseState::EndBracket => (ParseState::EndBracket, false),
    }
}

/// Index of the first `b` in `s` at or after `from`, if any.
pub open spec fn first_from(s: Seq<u8>, from: int, b: u8) -> Option<int>
    decreases s.len() - from,
{
    if from >= s.len() || from < 0 {
        None
    } else if s[from] == b {
        Some(from)
    } else {
        first_from(s, from + 1, b)
    }
}

/// The telegram within `bytes`: from the first `{` to the first `}` after it,
/// or from the first `{` to the end when there is no closing bracket (yet).
/// Empty when there is no `{`.
pub open spec fn spec_telegram(bytes: Seq<u8>) -> Seq<u8> {
    match first_from(bytes, 0, 0x7b) {
        None => Seq::empty(),
        Some(start) => match first_from(bytes, start + 1, 0x7d) {
            None => bytes.subrange(start, bytes.len() as int),
            Some(end) => bytes.subrange(start, end + 1),
        },
    }
}

/// Whether `bytes` holds a complete telegram.
pub open spec fn spec_complete(bytes: Seq<u8>) -> bool {
    match first_from(bytes, 0, 0x7b) {
        None => false,
        Some(start) => first_from(bytes, start + 1, 0x7d) is Some,
    }
}

proof fn lemma_first_from_step(s: Seq<u8>, from: int, b: u8)
    requires
        0 <= from < s.len(),
        s[from] != b,
    ensures
        first_from(s, from, b) == first_from(s, from + 1, b),
{
}

proof fn lemma_first_from_none_extend(s: Seq<u8>, from: int, b: u8, x: u8)
    requires
        0 <= from <= s.len(),
        first_from(s, from, b) is None,
    ensures
        first_from(s.push(x), from, b) == (if x == b { Some(s.len() as int) } else { None::<int> }),
    decreases s.len() - from,
{
    if from < s.len() {
        assert(s.push(x)[from] == s[from]);
        lemma_first_from_none_extend(s, from + 1, b, x);
    } else {
        assert(s.push(x)[from] == x);
        assert(first_from(s.push(x), from + 1, b) is None);
    }
}

proof fn lemma_first_from_some_extend(s: Seq<u8>, from: int, b: u8, x: u8)
    requires
        0 <= from <= s.len(),
        first_from(s, from, b) is Some,
    ensures
        first_from(s.push(x), from, b) == first_from(s, from, b),
    decreases s.len() - from,
{
    if from < s.len() {
        assert(s.push(x)[from] == s[from]);
        if s[from] != b {
            lemma_first_from_some_extend(s, from + 1, b, x);
        }
    }
}

/// Largest telegram kept: bytes beyond it are dropped.
pub const MAX_TELEGRAM: usize = 1024;

/// The first `MAX_TELEGRAM` bytes of `s`.
pub open spec fn capped(s: Seq<u8>) -> Seq<u8> {
    if s.len() <= MAX_TELEGRAM {
        s
    } else {
        s.take(MAX_TELEGRAM as int)
    }
}

/// Extract the telegram from a sequence of bytes read from the serial line,
/// feeding them one by one. Stops at the closing bracket; bytes after it are
/// not part of the telegram, and only the first `MAX_TELEGRAM` bytes of the
/// telegram are kept.
pub fn frame(bytes: &Vec<u8>) -> (r: (Vec<u8>, bool))
    ensures
        r.0@ == capped(spec_telegram(bytes@)),
        r.1 == spec_complete(bytes@),
{
    let mut state = ParseState::StartBracket;
    let mut out: Vec<u8> = Vec::new();
    let mut i: usize = 0;
    let ghost mut start: int = 0;
    let mut done = false;
    while i < bytes.len() && !done
        invariant
            i <= bytes.len(),
            done == (state is EndBracket),
            state is StartBracket ==> first_from(bytes@.subrange(0, i as int), 0, 0x7b) is None
                && out@ == Seq::<u8>::empty(),
            !(state is StartBracket) ==> first_from(bytes@.subrange(0, i as int), 0, 0x7b) == Some(start)
                && 0 <= start < i && out@ == capped(bytes@.subrange(start, i as int)),
            state is Body ==> first_from(bytes@.subrange(0, i as int), start + 1, 0x7d) is None,
            state is EndBracket ==> first_from(bytes@.subrange(0, i as int), start + 1, 0x7d) == Some(
                i - 1,
            ),
        decreases bytes.len() - i,
    {
        let b = bytes[i];
        let ghost pre = bytes@.subrange(0, i as int);
        assert(bytes@.subrange(0, i + 1) =~= pre.push(b));
        let (next, keep) = feed(state, b);
        proof {
            if state is StartBracket {
                lemma_first_from_none_extend(pre, 0, 0x7b, b);
                if b == 0x7b {
                    start = i as int;
                    assert(first_from(pre.push(b), start + 1, 0x7d) is None);
                }
            } else {
                lemma_first_from_some_extend(pre, 0, 0x7b, b);
                lemma_first_from_none_extend(pre, start + 1, 0x7d, b);
            }
        }
        if keep && out.len() < MAX_TELEGRAM {
            out.push(b);
        }
        proof {
            if keep {
                let t = bytes@.subrange(start, i + 1);
                assert(t =~= bytes@.subrange(start, i as int).push(b));
                if t.len() <= MAX_TELEGRAM {
                    assert(capped(t) =~= capped(bytes@.subrange(start, i as int)).push(b));
                } else {
                    assert(capped(t) =~= capped(bytes@.subrange(start, i as int)));
                }
            }
        }
        state = next;
        done = match state {
            ParseState::EndBracket => true,
            _ => false,
        };
        i = i + 1;
    }
    proof {
        let s = bytes@;
        if state is EndBracket {
            lemma_first_from_some_extend_all(s.subrange(0, i as int), s, 0, 0x7b);
            lemma_first_from_some_extend_all(s.subrange(0, i as int), s, start + 1, 0x7d);
        } else {
            assert(s.subrange(0, i as int) =~= s);
        }
    }
    (out, done)
}

proof fn lemma_first_from_some_extend_all(p: Seq<u8>, s: Seq<u8>, from: int, b: u8)
    requires
        0 <= from <= p.len() <= s.len(),
        p =~= s.subrange(0, p.len() as int),
        first_from(p, from, b) is Some,
    ensures
        first_from(s, from, b) == first_from(p, from, b),
    decreases p.len() - from,
{
    if from < p.len() {
        assert(s[from] == p[from]);
        if p[from] != b {
            lemma_first_from_some_extend_all(p, s, from + 1, b);
        }
    }
}

/// Number of samples in a GPS packet.
pub const GPS_PACKET_SZ: usize = 124;

/// Version of the GPS packet format.
pub const GPS_PACKET_V: u8 = 3;

/// One sample from the external GPS.
#[allow(non_snake_case)]
#[derive(Debug, Clone, Copy, PartialEq, Eq, Structural)]
pub struct Sample {
    pub year: u16,
    pub month: u8,
    pub day: u8,
    pub hour: u8,
    pub minute: u8,
    pub sec: u8,
    pub nano: i32,
    /// Time accuracy [ns].
    pub time_acc: u32,
    /// Longitude [deg * 1e7].
    pub lon: i32,
    /// Latitude [deg * 1e7].
    pub lat: i32,
    /// Height above mean sea level [mm].
    pub msl: i32,
    /// Horizontal accuracy [mm].
    pub hor_acc: u32,
    /// Vertical accuracy [mm].
    pub vert_acc: u32,
    /// Velocity north, east and down [mm/s], and its accuracy.
    pub velN: i32,
    pub velE: i32,
    pub velD: i32,
    pub sAcc: i32,
    pub fix: u8,
    pub soln: u8,
}

/// Milliseconds since the epoch (UTC) of a calendar date and time, when it is a
/// valid one.
pub uninterp spec fn calendar_millis(year: i32, month: u32, day: u32, hour: u32, min: u32, sec: u32, nano: u32) -> Option<i64>;

/// `chrono::NaiveDate::from_ymd_opt`, `NaiveDate::and_hms_nano_opt`,
/// `NaiveDateTime::and_utc` and `DateTime::timestamp_millis`: the time in
/// milliseconds since the epoch, or nothing for an invalid date or time (such
/// as month 0 or 13, day 0, hour 24, minute 60 or second 60).
#[verifier::external_body]
fn utc_millis(year: i32, month: u32, day: u32, hour: u32, min: u32, sec: u32, nano: u32) -> (r: Option<i64>)
    ensures
        r == calendar_millis(year, month, day, hour, min, sec, nano),
        month == 0 || month > 12 || day == 0 || day > 31 || hour > 23 || min > 59 || sec > 59 ==> r is None,
{
    chrono::NaiveDate::from_ymd_opt(year, month, day)
        .and_then(|d| d.and_hms_nano_opt(hour, min, sec, nano))
        .map(|t| t.and_utc().timestamp_millis())
}

/// The second and nanosecond of a sample, with a negative nanosecond borrowed
/// from the second.
pub open spec fn spec_sec_nano(sec: u8, nano: i32) -> (u8, u32) {
    if nano < 0 {
        ((sec - 1) as u8, (1_000_000_000 + nano) as u32)
    } else {
        (sec, nano as u32)
    }
}

impl Sample {
    /// Time of the sample (milliseconds since the epoch), when it is a valid
    /// date and time.
    pub open spec fn spec_timestamp(self) -> Option<i64> {
        calendar_millis(self.year as i32, self.month as u32, self.day as u32, self.hour as u32,
            self.minute as u32, spec_sec_nano(self.sec, self.nano).0 as u32, spec_sec_nano(self.sec, self.nano).1)
    }

    /// Time of the sample (milliseconds since the epoch), when it is a valid
    /// date and time. A negative nanosecond is borrowed from the second.
    pub fn timestamp(&self) -> (r: Option<i64>)
        requires
            !(self.nano < 0 && self.sec == 0),
        ensures
            r == self.spec_timestamp(),
            self.month == 0 || self.month > 12 || self.day == 0 || self.day > 31 || self.hour > 23
                || self.minute > 59 || spec_sec_nano(self.sec, self.nano).0 > 59 ==> r is None,
    {
        let mut sec = self.sec;
        let mut nano = self.nano;
        if nano < 0 {
            sec = sec - 1;
            nano = 1_000_000_000 + nano;
        }
        let nano = nano as u32;
        utc_millis(self.year as i32, self.month as u32, self.day as u32, self.hour as u32, self.minute as u32, sec as u32, nano)
    }
}

/// Number of samples with fix type `k`.
pub open spec fn count_fix(s: Seq<Sample>, k: u8) -> nat
    decreases s.len(),
{
    if s.len() == 0 {
        0
    } else {
        count_fix(s.drop_last(), k) + if s.last().fix == k { 1nat } else { 0nat }
    }
}

/// Number of samples with carrier solution `k`.
pub open spec fn count_soln(s: Seq<Sample>, k: u8) -> nat
    decreases s.len(),
{
    if s.len() == 0 {
        0
    } else {
        count_soln(s.drop_last(), k) + if s.last().soln == k { 1nat } else { 0nat }
    }
}

proof fn lemma_counts_bounded(s: Seq<Sample>, k: u8)
    ensures
        count_fix(s, k) <= s.len(),
        count_soln(s, k) <= s.len(),
    decreases s.len(),
{
    if s.len() > 0 {
        lemma_counts_bounded(s.drop_last(), k);
    }
}

/// How many samples of a packet have each fix type and each carrier solution.
pub fn fix_counts(samples: &[Sample]) -> (r: ([u8; 8], [u8; 8]))
    requires
        samples.len() <= GPS_PACKET_SZ,
        forall|i: int| 0 <= i < samples.len() ==> #[trigger] samples[i].fix < 8 && samples[i].soln < 8,
    ensures
        forall|k: int| 0 <= k < 8 ==> #[trigger] r.0[k] == count_fix(samples@, k as u8),
        forall|k: int| 0 <= k < 8 ==> #[trigger] r.1[k] == count_soln(samples@, k as u8),
{
    let mut fix = [0u8; 8];
    let mut soln = [0u8; 8];
    let mut i: usize = 0;
    while i < samples.len()
        invariant
            i <= samples.len() <= GPS_PACKET_SZ,
            forall|j: int| 0 <= j < samples.len() ==> #[trigger] samples[j].fix < 8 && samples[j].soln < 8,
            forall|k: int| 0 <= k < 8 ==> #[trigger] fix[k] == count_fix(samples@.subrange(0, i as int), k as u8),
            forall|k: int| 0 <= k < 8 ==> #[trigger] soln[k] == count_soln(samples@.subrange(0, i as int), k as u8),
        decreases samples.len() - i,
    {
        let s = samples[i];
        let ghost pre = samples@.subrange(0, i as int);
        let ghost post = samples@.subrange(0, i + 1);
        proof {
            assert(post.drop_last() =~= pre);
            assert(post.last() == s);
            lemma_counts_bounded(pre, s.fix);
            lemma_counts_bounded(pre, s.soln);
        }
        let f = s.fix as usize;
        let o = s.soln as usize;
        assert(fix[f as int] == count_fix(pre, s.fix));
        assert(soln[o as int] == count_soln(pre, s.soln));
        let ghost fix0 = fix;
        let ghost soln0 = soln;
        fix.set(f, fix[f] + 1);
        soln.set(o, soln[o] + 1);
        proof {
            assert forall|k: int| 0 <= k < 8 implies #[trigger] fix[k] == count_fix(post, k as u8) by {
                assert(fix0[k] == count_fix(pre, k as u8));
            }
            assert forall|k: int| 0 <= k < 8 implies #[trigger] soln[k] == count_soln(post, k as u8) by {
                assert(soln0[k] == count_soln(pre, k as u8));
            }
        }
        i = i + 1;
    }
    proof {
        assert(samples@.subrange(0, samples.len() as int) =~= samples@);
    }
    (fix, soln)
}

/// The samples held by a GPS sample buffer, in order.
pub uninterp spec fn gps_samples(v: heapless::Vec<Sample, GPS_PACKET_SZ>) -> Seq<Sample>;

/// `heapless::Vec::new`: an empty buffer.
#[verifier::external_body]
fn samples_new() -> (v: heapless::Vec<Sample, GPS_PACKET_SZ>)
    ensures
        gps_samples(v) == Seq::<Sample>::empty(),
{
    heapless::Vec::new()
}

/// `heapless::Vec::len`: the number of samples held, never above the
/// capacity.
#[verifier::external_body]
fn samples_len(v: &heapless::Vec<Sample, GPS_PACKET_SZ>) -> (n: usize)
    ensures
        n == gps_samples(*v).len(),
        n <= GPS_PACKET_SZ,
{
    v.len()
}

/// `heapless::Vec::push`: appends the sample when there is room, and hands it
/// back otherwise.
#[verifier::external_body]
fn samples_push(v: &mut heapless::Vec<Sample, GPS_PACKET_SZ>, s: Sample) -> (r: Result<(), Sample>)
    ensures
        r == (if gps_samples(*old(v)).len() < GPS_PACKET_SZ {
            Ok::<(), Sample>(())
        } else {
            Err::<(), Sample>(s)
        }),
        gps_samples(*final(v)) == (if gps_samples(*old(v)).len() < GPS_PACKET_SZ {
            gps_samples(*old(v)).push(s)
        } else {
            gps_samples(*old(v))
        }),
{
    v.push(s)
}

/// `heapless::Vec::clear`: removes all samples.
#[verifier::external_body]
fn samples_clear(v: &mut heapless::Vec<Sample, GPS_PACKET_SZ>)
    ensures
        gps_samples(*final(v)) == Seq::<Sample>::empty(),
{
    v.clear()
}

/// `heapless::Vec::as_slice`: the samples held.
#[verifier::external_body]
fn samples_as_slice(v: &heapless::Vec<Sample, GPS_PACKET_SZ>) -> (s: &[Sample])
    ensures
        s@ == gps_samples(*v),
{
    v.as_slice()
}

/// Sum of `f` over the samples.
pub open spec fn sum_of(s: Seq<Sample>, f: spec_fn(Sample) -> int) -> int
    decreases s.len(),
{
    if s.len() == 0 {
        0
    } else {
        sum_of(s.drop_last(), f) + f(s.last())
    }
}

/// Integer division rounding towards zero, as Rust's `/` on signed integers.
pub open spec fn div_trunc(a: int, n: int) -> int {
    if a >= 0 {
        a / n
    } else {
        -((-a) / n)
    }
}

/// Mean of `f` over the (non-empty) samples, rounded towards zero.
pub open spec fn mean_of(s: Seq<Sample>, f: spec_fn(Sample) -> int) -> int {
    div_trunc(sum_of(s, f), s.len() as int)
}

pub open spec fn lon_of(s: Sample) -> int {
    s.lon as int
}

pub open spec fn lat_of(s: Sample) -> int {
    s.lat as int
}

pub open spec fn msl_of(s: Sample) -> int {
    s.msl as int
}

proof fn lemma_sum_bounds(s: Seq<Sample>, f: spec_fn(Sample) -> int)
    requires
        forall|x: Sample| #[trigger] f(x) >= i32::MIN && f(x) <= i32::MAX,
    ensures
        s.len() * (i32::MIN as int) <= sum_of(s, f) <= s.len() * (i32::MAX as int),
    decreases s.len(),
{
    if s.len() > 0 {
        lemma_sum_bounds(s.drop_last(), f);
        assert(f(s.last()) >= i32::MIN);
    }
}

/// Mean (rounded towards zero) of the values picked by `pick` (0: lon, 1:
/// lat, otherwise msl) of the samples.
fn mean_position(samples: &[Sample], pick: u8) -> (r: i32)
    requires
        0 < samples@.len() <= GPS_PACKET_SZ,
    ensures
        r == mean_of(samples@, if pick == 0 { |x: Sample| lon_of(x) } else if pick == 1 {
            |x: Sample| lat_of(x)
        } else {
            |x: Sample| msl_of(x)
        }),
{
    let ghost f: spec_fn(Sample) -> int = if pick == 0 { |x: Sample| lon_of(x) } else if pick == 1 {
        |x: Sample| lat_of(x)
    } else {
        |x: Sample| msl_of(x)
    };
    let n = samples.len();
    let mut sum: i64 = 0;
    let mut i: usize = 0;
    while i < n
        invariant
            n == samples@.len(),
            0 < n <= GPS_PACKET_SZ,
            i <= n,
            sum == sum_of(samples@.subrange(0, i as int), f),
            f == (if pick == 0 { |x: Sample| lon_of(x) } else if pick == 1 {
                |x: Sample| lat_of(x)
            } else {
                |x: Sample| msl_of(x)
            }),
        decreases n - i,
    {
        let s = samples[i];
        let v: i32 = if pick == 0 {
            s.lon
        } else if pick == 1 {
            s.lat
        } else {
            s.msl
        };
        proof {
            let p = samples@.subrange(0, i + 1);
            assert(p.drop_last() =~= samples@.subrange(0, i as int));
            assert(p.last() == s);
            assert(f(s) == v);
            lemma_sum_bounds(samples@.subrange(0, i as int), f);
            assert(i * (i32::MIN as int) >= 124 * (i32::MIN as int)) by (nonlinear_arith)
                requires
                    i <= 124,
            ;
            assert(i * (i32::MAX as int) <= 124 * (i32::MAX as int)) by (nonlinear_arith)
                requires
                    i <= 124,
            ;
        }
        sum = sum + v as i64;
        i = i + 1;
    }
    proof {
        assert(samples@.subrange(0, n as int) =~= samples@);
        lemma_sum_bounds(samples@, f);
        assert(n * (i32::MIN as int) <= sum <= n * (i32::MAX as int));
    }
    let nn = n as i64;
    let m: i64 = if sum >= 0 {
        sum / nn
    } else {
        -((-sum) / nn)
    };
    proof {
        let si = sum as int;
        if si >= 0 {
            assert(si / (n as int) <= 2147483647) by (nonlinear_arith)
                requires
                    0 <= si <= n * 2147483647,
                    n > 0,
            ;
        } else {
            assert((-si) / (n as int) <= 2147483648) by (nonlinear_arith)
                requires
                    0 < -si <= n * 2147483648,
                    n > 0,
            ;
        }
    }
    m as i32
}

/// A GPS packet collected from the sample buffer, as far as it is integers:
/// the scaling of offsets and velocities into `u16`s and the accuracy
/// statistics (floating point) are done outside the library.
pub struct Collected {
    /// Time of the first sample (milliseconds since the epoch).
    pub timestamp: i64,
    /// Reference position: the mean of all samples (rounded towards zero).
    pub lon: i32,
    pub lat: i32,
    pub msl: i32,
    /// Position of each sample relative to the reference (lon, lat, msl).
    pub offsets: Vec<(i64, i64, i64)>,
    /// Time from the first to the last sample (milliseconds).
    pub span: i128,
    /// Number of samples with each fix type and each carrier solution.
    pub fix: [u8; 8],
    pub soln: [u8; 8],
    /// The samples, in order.
    pub samples: Vec<Sample>,
}

/// Samples waiting to be collected into a GPS packet.
pub struct SampleBuf {
    buf: heapless::Vec<Sample, GPS_PACKET_SZ>,
}

/// Whether a sample can be kept: a valid time, and fix type and carrier
/// solution within the counted range.
pub open spec fn valid_sample(s: Sample) -> bool {
    &&& s.spec_timestamp() is Some
    &&& s.fix < 8 && s.soln < 8
    &&& !(s.nano < 0 && s.sec == 0)
}

impl SampleBuf {
    /// The samples held, oldest first.
    pub closed spec fn samples(&self) -> Seq<Sample> {
        gps_samples(self.buf)
    }

    /// Every sample held can be kept (see `valid_sample`).
    pub closed spec fn wf(&self) -> bool {
        forall|i: int| 0 <= i < gps_samples(self.buf).len() ==> valid_sample(#[trigger] gps_samples(self.buf)[i])
    }

    /// An empty buffer.
    pub fn new() -> (b: SampleBuf)
        ensures
            b.wf(),
            b.samples() == Seq::<Sample>::empty(),
    {
        SampleBuf { buf: samples_new() }
    }

    /// Number of samples.
    pub fn len(&self) -> (n: usize)
        ensures
            n == self.samples().len(),
    {
        samples_len(&self.buf)
    }

    /// Whether the buffer holds a whole packet of samples.
    pub fn is_full(&self) -> (r: bool)
        ensures
            r == (self.samples().len() == GPS_PACKET_SZ),
    {
        samples_len(&self.buf) == GPS_PACKET_SZ
    }

    /// Handle the telegram read from the GPS (`parsed`: the sample, if it
    /// parsed). When the buffer is full no telegram is read at all: as with a
    /// telegram that did not parse, or a sample without a valid time, the
    /// buffer is then collected at once (so that later samples are not
    /// mis-timed), and nothing is returned but that packet. Otherwise the
    /// sample is added and returned.
    pub fn add(&mut self, parsed: Option<Sample>) -> (r: (Option<Sample>, Option<Collected>))
        requires
            old(self).wf(),
            parsed matches Some(s) ==> !(s.nano < 0 && s.sec == 0) && s.fix < 8 && s.soln < 8,
        ensures
            final(self).wf(),
            match parsed {
                Some(s) if s.spec_timestamp() is Some && old(self).samples().len() < GPS_PACKET_SZ => {
                    &&& r.1 is None
                    &&& final(self).samples() == old(self).samples().push(s)
                    &&& r.0 == Some(s)
                },
                _ => {
                    &&& r.0 is None
                    &&& final(self).samples() == Seq::<Sample>::empty()
                    &&& (r.1 is None <==> old(self).samples().len() == 0)
                    &&& r.1 matches Some(c) ==> collected(c, old(self).samples())
                },
            },
    {
        if samples_len(&self.buf) < GPS_PACKET_SZ {
            if let Some(s) = parsed {
                if s.timestamp().is_some() {
                    let _ = samples_push(&mut self.buf, s);
                    return (Some(s), None);
                }
            }
        }
        let c = self.collect();
        (None, c)
    }

    /// Collect the samples into a packet, leaving the buffer empty; nothing
    /// when there are no samples.
    pub fn collect(&mut self) -> (r: Option<Collected>)
        requires
            old(self).wf(),
        ensures
            final(self).wf(),
            final(self).samples() == Seq::<Sample>::empty(),
            old(self).samples().len() == 0 <==> r is None,
            r matches Some(c) ==> collected(c, old(self).samples()),
    {
        let n = samples_len(&self.buf);
        if n == 0 {
            return None;
        }
        let sl = samples_as_slice(&self.buf);
        let lon = mean_position(sl, 0);
        let lat = mean_position(sl, 1);
        let msl = mean_position(sl, 2);
        let mut offsets: Vec<(i64, i64, i64)> = Vec::new();
        let mut samples: Vec<Sample> = Vec::new();
        let mut i: usize = 0;
        while i < n
            invariant
                n == sl@.len(),
                i <= n,
                offsets@.len() == i,
                samples@ == sl@.subrange(0, i as int),
                forall|j: int| 0 <= j < i ==> #[trigger] offsets@[j] == offset_of(sl@[j], lon, lat, msl),
            decreases n - i,
        {
            let s = sl[i];
            offsets.push((s.lon as i64 - lon as i64, s.lat as i64 - lat as i64, s.msl as i64 - msl as i64));
            samples.push(s);
            i = i + 1;
        }
        proof {
            assert(samples@ =~= sl@);
        }
        let (fix, soln) = fix_counts(sl);
        let first = sl[0];
        let last = sl[n - 1];
        assert(valid_sample(first) && valid_sample(last));
        let t0 = first.timestamp();
        let t1 = last.timestamp();
        let (timestamp, span) = match (t0, t1) {
            (Some(a), Some(b)) => (a, b as i128 - a as i128),
            _ => (0, 0),
        };
        samples_clear(&mut self.buf);
        Some(Collected { timestamp, lon, lat, msl, offsets, span, fix, soln, samples })
    }
}

/// Position of `s` relative to the reference (lon, lat, msl).
pub open spec fn offset_of(s: Sample, lon: i32, lat: i32, msl: i32) -> (i64, i64, i64) {
    ((s.lon - lon) as i64, (s.lat - lat) as i64, (s.msl - msl) as i64)
}

/// `c` is the packet collected from `samples`.
pub open spec fn collected(c: Collected, samples: Seq<Sample>) -> bool {
    &&& samples.len() > 0
    &&& c.samples@ == samples
    &&& Some(c.timestamp) == samples[0].spec_timestamp()
    &&& Some((c.span + c.timestamp) as i64) == samples.last().spec_timestamp()
    &&& c.lon == mean_of(samples, |x: Sample| lon_of(x))
    &&& c.lat == mean_of(samples, |x: Sample| lat_of(x))
    &&& c.msl == mean_of(samples, |x: Sample| msl_of(x))
    &&& c.offsets@.len() == samples.len()
    &&& forall|i: int| 0 <= i < samples.len() ==> #[trigger] c.offsets@[i] == offset_of(samples[i], c.lon, c.lat, c.msl)
    &&& forall|k: int| 0 <= k < 8 ==> #[trigger] c.fix[k] == count_fix(samples, k as u8)
    &&& forall|k: int| 0 <= k < 8 ==> #[trigger] c.soln[k] == count_soln(samples, k as u8)
}

/// Borrowing a negative nanosecond from the second keeps the time of the
/// sample: seconds and nanoseconds give the same instant, and the nanosecond
/// becomes non-negative; a non-negative nanosecond is kept as it is.
pub proof fn lemma_sec_nano_same_instant(sec: u8, nano: i32)
    requires
        !(nano < 0 && sec == 0),
        nano > -1_000_000_000,
    ensures
        spec_sec_nano(sec, nano).0 as int * 1_000_000_000 + spec_sec_nano(sec, nano).1 as int == sec as int
            * 1_000_000_000 + nano as int,
        0 <= spec_sec_nano(sec, nano).1,
        nano >= 0 ==> spec_sec_nano(sec, nano) == (sec, nano as u32),
{
}

/// The fix-type count of a sequence of samples is the number of samples with
/// that fix type (and likewise for the carrier solution).
pub proof fn lemma_counts_are_filters(s: Seq<Sample>, k: u8)
    ensures
        count_fix(s, k) == s.filter(|x: Sample| x.fix == k).len(),
        count_soln(s, k) == s.filter(|x: Sample| x.soln == k).len(),
    decreases s.len(),
{
    reveal(Seq::filter);
    if s.len() > 0 {
        lemma_counts_are_filters(s.drop_last(), k);
    }
}

} // verus!
