//! The counter that makes a running filter a decimator: a filtered value is
//! only computed for every `DECIMATE`'th sample.
use vstd::prelude::*;

verus! {

/// Decimation factor: the largest that keeps the 26 Hz cut-off below the
/// Nyquist frequency of the output, at 833 Hz input.
pub const DECIMATE: u8 = 16;

/// Counts samples put into a decimating filter.
pub struct Decimation {
    m: u8,
}

impl Decimation {
    /// Samples left until the next output, minus one (0 right after a reset).
    pub closed spec fn spec_m(&self) -> u8 {
        self.m
    }

    pub closed spec fn wf(&self) -> bool {
        self.m <= DECIMATE
    }

    /// A new counter: the first sample gives an output.
    pub fn new() -> (d: Decimation)
        ensures
            d.wf(),
            d.spec_m() == 0,
    {
        Decimation { m: 0 }
    }

    /// Reset: the next sample gives an output.
    pub fn reset(&mut self)
        ensures
            final(self).wf(),
            final(self).spec_m() == 0,
    {
        self.m = 0;
    }

    /// Count one sample; true when the filter is to output a value for it.
    pub fn tick(&mut self) -> (out: bool)
        requires
            old(self).wf(),
        ensures
            final(self).wf(),
            (out, final(self).spec_m()) == spec_tick(old(self).spec_m()),
    {
        if self.m % DECIMATE == 0 {
            self.m = 1;
            true
        } else {
            self.m = self.m + 1;
            false
        }
    }
}

/// Whether a sample counted at `m` gives an output, and the count afterwards.
pub open spec fn spec_tick(m: u8) -> (bool, u8) {
    if m % DECIMATE == 0 {
        (true, 1)
    } else {
        (false, (m + 1) as u8)
    }
}

/// The outputs of `n` consecutive samples counted from `m`.
pub open spec fn outputs(m: u8, n: nat) -> Seq<bool>
    decreases n,
{
    if n == 0 {
        Seq::empty()
    } else {
        seq![spec_tick(m).0] + outputs(spec_tick(m).1, (n - 1) as nat)
    }
}

/// Counting from `m` (between 1 and `DECIMATE`), the samples give no output
/// until the count reaches `DECIMATE`, which gives one.
pub proof fn lemma_no_output_until(m: u8)
    requires
        1 <= m <= DECIMATE,
    ensures
        outputs(m, (DECIMATE - m + 1) as nat) =~= Seq::new((DECIMATE - m) as nat, |i: int| false).push(true),
    decreases DECIMATE - m,
{
    if m < DECIMATE {
        lemma_no_output_until((m + 1) as u8);
        assert(spec_tick(m) == (false, (m + 1) as u8));
    } else {
        assert(outputs(1, 0) =~= Seq::<bool>::empty());
    }
}

/// The first sample after a reset gives an output, and after every output
/// exactly `DECIMATE - 1` samples pass without one before the next output.
pub proof fn lemma_output_every_decimate()
    ensures
        outputs(0, 1) =~= seq![true],
        outputs(1, DECIMATE as nat) =~= Seq::new((DECIMATE - 1) as nat, |i: int| false).push(true),
{
    assert(outputs(1, 0) =~= Seq::<bool>::empty());
    lemma_no_output_until(1);
}

/// The count after `k` samples since a reset.
pub open spec fn count_after(k: nat) -> u8 {
    if k == 0 {
        0
    } else {
        ((k - 1) % (DECIMATE as int) + 1) as u8
    }
}

proof fn lemma_tick_after(k: nat)
    ensures
        spec_tick(count_after(k)) == ((k as int) % (DECIMATE as int) == 0, count_after(k + 1)),
{
}

proof fn lemma_outputs_after(j: nat, n: nat)
    ensures
        outputs(count_after(j), n).len() == n,
        forall|i: int| 0 <= i < n ==> #[trigger] outputs(count_after(j), n)[i] == ((j + i) % (DECIMATE as int)
            == 0),
    decreases n,
{
    if n > 0 {
        lemma_tick_after(j);
        lemma_outputs_after(j + 1, (n - 1) as nat);
        let o = outputs(count_after(j), n);
        assert(o == seq![spec_tick(count_after(j)).0] + outputs(count_after(j + 1), (n - 1) as nat));
        assert forall|i: int| 0 <= i < n implies #[trigger] o[i] == ((j + i) % (DECIMATE as int) == 0) by {
            if i > 0 {
                assert(o[i] == outputs(count_after(j + 1), (n - 1) as nat)[i - 1]);
            }
        }
    }
}

/// Over any number of samples after a reset, the sample with 0-based index
/// `k` gives an output exactly when `k` is a multiple of `DECIMATE`; and the
/// count after `k` samples is `count_after(k)`.
pub proof fn lemma_decimation_period(n: nat)
    ensures
        outputs(0, n).len() == n,
        forall|k: int| 0 <= k < n ==> #[trigger] outputs(0, n)[k] == (k % (DECIMATE as int) == 0),
        forall|k: nat| #[trigger] spec_tick(count_after(k)) == ((k as int) % (DECIMATE as int) == 0, count_after(k + 1)),
{
    assert(count_after(0) == 0);
    lemma_outputs_after(0, n);
    assert forall|k: nat| #[trigger] spec_tick(count_after(k)) == ((k as int) % (DECIMATE as int) == 0, count_after(k + 1)) by {
        lemma_tick_after(k);
    }
}

} // verus!
