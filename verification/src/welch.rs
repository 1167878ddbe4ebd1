//! Segment bookkeeping of the rolling Welch spectrum: samples are collected in
//! segments of `NSEG` that overlap by `NOVERLAP`; each full segment is added to
//! the spectrum, and its last `NOVERLAP` samples start the next segment.
use vstd::prelude::*;

verus! {

/// Length of a segment.
pub const NSEG: usize = 2048;

/// Length of the FFT.
pub const NFFT: usize = 2048;

/// Overlap between consecutive segments.
pub const NOVERLAP: usize = 1024;

/// First frequency bin sent.
pub const FI0: usize = 2;

/// One past the last frequency bin sent.
pub const FI1: usize = 85;

/// Number of frequency bins sent.
pub const WELCH_PACKET_SZ: usize = 83;

/// Maximum length of the base64 string of a spectrum (two bytes per bin).
pub const WELCH_OUTN: usize = 225;

/// How full the current segment is, and how many segments went into the
/// spectrum.
pub struct Segments {
    len: usize,
    nseg: u16,
}

impl Segments {
    pub closed spec fn spec_len(&self) -> usize {
        self.len
    }

    pub closed spec fn spec_nseg(&self) -> u16 {
        self.nseg
    }

    pub closed spec fn wf(&self) -> bool {
        self.len < NSEG
    }

    /// No samples, no segments.
    pub fn new() -> (s: Segments)
        ensures
            s.wf(),
            s.spec_len() == 0,
            s.spec_nseg() == 0,
    {
        Segments { len: 0, nseg: 0 }
    }

    /// Forget all samples and segments.
    pub fn reset(&mut self)
        ensures
            final(self).wf(),
            final(self).spec_len() == 0,
            final(self).spec_nseg() == 0,
    {
        self.len = 0;
        self.nseg = 0;
    }

    /// Number of samples in the current segment.
    pub fn len(&self) -> (r: usize)
        ensures
            r == self.spec_len(),
    {
        self.len
    }

    /// Number of segments in the spectrum.
    pub fn nseg(&self) -> (r: u16)
        ensures
            r == self.spec_nseg(),
    {
        self.nseg
    }

    /// Count one sample. Returns true when it completes the segment: the
    /// segment is then added to the spectrum and the next one starts with the
    /// last `NOVERLAP` samples.
    pub fn push(&mut self) -> (full: bool)
        requires
            old(self).wf(),
            old(self).spec_nseg() < u16::MAX,
        ensures
            final(self).wf(),
            (full, final(self).spec_len(), final(self).spec_nseg()) == spec_push(old(self).spec_len(),
                old(self).spec_nseg()),
    {
        self.len = self.len + 1;
        if self.len == NSEG {
            self.len = NOVERLAP;
            self.nseg = self.nseg + 1;
            true
        } else {
            false
        }
    }

    /// Number of samples the spectrum covers: the first segment and the new
    /// part of every following one.
    pub fn covered(&self) -> (n: u64)
        ensures
            n == spec_covered(self.spec_nseg() as nat),
    {
        if self.nseg == 0 {
            0
        } else {
            NSEG as u64 + (NSEG - NOVERLAP) as u64 * (self.nseg - 1) as u64
        }
    }
}

/// Counting a sample in a segment holding `len` samples, with `nseg` segments
/// done: whether the segment completes, and the new counts.
pub open spec fn spec_push(len: usize, nseg: u16) -> (bool, usize, u16) {
    if len + 1 == NSEG {
        (true, NOVERLAP, (nseg + 1) as u16)
    } else {
        (false, (len + 1) as usize, nseg)
    }
}

/// Number of samples covered by `nseg` segments.
pub open spec fn spec_covered(nseg: nat) -> nat {
    if nseg == 0 {
        0
    } else {
        (NSEG + (NSEG - NOVERLAP) * (nseg - 1)) as nat
    }
}

/// Whether each of `n` consecutive samples completes a segment, starting
/// from a segment holding `len` samples (segment counts left out).
pub open spec fn completions(len: usize, n: nat) -> Seq<bool>
    decreases n,
{
    if n == 0 {
        Seq::empty()
    } else {
        seq![spec_push(len, 0).0] + completions(spec_push(len, 0).1, (n - 1) as nat)
    }
}

/// From a segment holding `len` samples, the next `NSEG - len` samples
/// complete a segment only at the last one.
pub proof fn lemma_completes_after(len: usize)
    requires
        len < NSEG,
    ensures
        completions(len, (NSEG - len) as nat) =~= Seq::new((NSEG - len - 1) as nat, |i: int| false).push(true),
    decreases NSEG - len,
{
    if len + 1 < NSEG {
        lemma_completes_after((len + 1) as usize);
    } else {
        assert(completions(NOVERLAP, 0) =~= Seq::<bool>::empty());
    }
}

/// The first segment completes at the `NSEG`'th sample, and every following
/// one after `NSEG - NOVERLAP` more samples.
pub proof fn lemma_segment_overlap()
    ensures
        completions(0, NSEG as nat) =~= Seq::new((NSEG - 1) as nat, |i: int| false).push(true),
        completions(NOVERLAP, (NSEG - NOVERLAP) as nat) =~= Seq::new((NSEG - NOVERLAP - 1) as nat, |i: int| false).push(true),
{
    lemma_completes_after(0);
    lemma_completes_after(NOVERLAP);
}

/// Samples in the current segment after `j` samples since a reset.
pub open spec fn len_after(j: nat) -> usize {
    if j < NSEG {
        j as usize
    } else {
        (NOVERLAP + (j - NSEG) % ((NSEG - NOVERLAP) as int)) as usize
    }
}

/// Whether the sample with 1-based index `k` since a reset completes a
/// segment.
pub open spec fn completes_at(k: int) -> bool {
    k >= NSEG && (k - NSEG) % ((NSEG - NOVERLAP) as int) == 0
}

proof fn lemma_push_after(j: nat)
    ensures
        spec_push(len_after(j), 0).0 == completes_at(j + 1 as int),
        spec_push(len_after(j), 0).1 == len_after(j + 1),
{
    if j >= NSEG {
        let k: int = j - NSEG;
        let r: int = k % 1024;
        assert(0 <= r < 1024);
        assert((k + 1) % 1024 == if r == 1023 { 0 } else { r + 1 }) by {
            assert(k == (k / 1024) * 1024 + r);
            if r == 1023 {
                assert(k + 1 == (k / 1024 + 1) * 1024);
            } else {
                assert(k + 1 == (k / 1024) * 1024 + (r + 1));
            }
        }
        assert(len_after(j) == 1024 + r);
        assert(len_after(j + 1) == 1024 + (k + 1) % 1024);
    }
}

proof fn lemma_completions_after(j: nat, n: nat)
    ensures
        completions(len_after(j), n).len() == n,
        forall|i: int| 0 <= i < n ==> #[trigger] completions(len_after(j), n)[i] == completes_at(j + i + 1),
    decreases n,
{
    if n > 0 {
        lemma_push_after(j);
        lemma_completions_after(j + 1, (n - 1) as nat);
        let o = completions(len_after(j), n);
        assert(o == seq![spec_push(len_after(j), 0).0] + completions(len_after(j + 1), (n - 1) as nat));
        assert forall|i: int| 0 <= i < n implies #[trigger] o[i] == completes_at(j + i + 1) by {
            if i > 0 {
                assert(o[i] == completions(len_after(j + 1), (n - 1) as nat)[i - 1]);
            }
        }
    }
}

/// Over any number of samples after a reset, the sample with 1-based index
/// `k` completes a segment exactly when `k >= NSEG` and `k - NSEG` is a
/// multiple of `NSEG - NOVERLAP`; after `j` samples the segment holds
/// `len_after(j)` samples.
pub proof fn lemma_segment_completions(n: nat)
    ensures
        completions(0, n).len() == n,
        forall|i: int| 0 <= i < n ==> #[trigger] completions(0, n)[i] == completes_at(i + 1),
        forall|j: nat| #[trigger] spec_push(len_after(j), 0).0 == completes_at(j + 1 as int)
            && spec_push(len_after(j), 0).1 == len_after(j + 1),
{
    assert(len_after(0) == 0);
    lemma_completions_after(0, n);
    assert forall|j: nat| #[trigger] spec_push(len_after(j), 0).0 == completes_at(j + 1 as int)
        && spec_push(len_after(j), 0).1 == len_after(j + 1) by {
        lemma_push_after(j);
    }
}

} // verus!
