//! Decisions of the firmware main loop: how often the notecard is served, and
//! when a failure to write to the SD card is logged.
use vstd::prelude::*;

verus! {

/// Milliseconds between iterations that serve the notecard.
pub const LOOP_DELAY: i64 = 3_000;

/// Milliseconds between iterations when the notecard queue is nearly full.
pub const SHORT_LOOP_DELAY: i64 = 3_000;

/// The notecard queue counts as nearly full with fewer free places than this.
pub const QUEUE_LOW: usize = 3;

/// Milliseconds between iterations of the main loop of the buoy without the
/// external GPS, when the queue is not ready.
pub const ARTEMIS_LOOP_DELAY: i64 = 5_000;

/// Whether the notecard is to be served at `now` (milliseconds), the last time
/// being `last`, with `queue_free` free places in the notecard queue: after
/// `LOOP_DELAY`, or after `SHORT_LOOP_DELAY` when the queue is nearly full.
pub fn iteration_due(now: i64, last: i64, queue_free: usize) -> (r: bool)
    requires
        i64::MIN <= now - last <= i64::MAX,
    ensures
        r == (now - last > LOOP_DELAY || (queue_free < QUEUE_LOW && now - last > SHORT_LOOP_DELAY)),
{
    let d = now - last;
    d > LOOP_DELAY || (queue_free < QUEUE_LOW && d > SHORT_LOOP_DELAY)
}

/// Whether the buoy without the external GPS serves the notecard: when its
/// queue is ready to be sent, or after `ARTEMIS_LOOP_DELAY`.
pub fn artemis_iteration_due(now: i64, last: i64, queue_ready: bool) -> (r: bool)
    requires
        i64::MIN <= now - last <= i64::MAX,
    ensures
        r == (queue_ready || now - last > ARTEMIS_LOOP_DELAY),
{
    queue_ready || now - last > ARTEMIS_LOOP_DELAY
}

/// Outcome of moving queued packages to the SD card.
#[derive(Debug, Clone, Copy, PartialEq, Eq, Structural)]
pub enum DrainOutcome {
    /// Writing failed.
    Failed,
    /// A package was stored.
    Stored,
    /// Nothing to store.
    Idle,
}

/// Remembers whether the SD card worked the last time, so that a run of
/// failures is logged once.
pub struct SdLog {
    good: bool,
}

impl SdLog {
    pub closed spec fn spec_good(&self) -> bool {
        self.good
    }

    /// The card is taken to work until it fails.
    pub fn new() -> (s: SdLog)
        ensures
            s.spec_good(),
    {
        SdLog { good: true }
    }

    /// Record an outcome; true when it is a failure to be logged, that is the
    /// first failure after the card worked. A stored package marks the card as
    /// working again; nothing to store changes nothing.
    pub fn observe(&mut self, outcome: DrainOutcome) -> (log: bool)
        ensures
            (log, final(self).spec_good()) == spec_observe(old(self).spec_good(), outcome),
    {
        match outcome {
            DrainOutcome::Failed => {
                let log = self.good;
                self.good = false;
                log
            },
            DrainOutcome::Stored => {
                self.good = true;
                false
            },
            DrainOutcome::Idle => false,
        }
    }
}

/// Whether an outcome is logged with the card working (`good`) before it,
/// and whether the card counts as working afterwards.
pub open spec fn spec_observe(good: bool, outcome: DrainOutcome) -> (bool, bool) {
    match outcome {
        DrainOutcome::Failed => (good, false),
        DrainOutcome::Stored => (false, true),
        DrainOutcome::Idle => (false, good),
    }
}

/// A run of failures, with idle iterations in between, is logged once: after a
/// failure no failure is logged before a package is stored again.
pub proof fn lemma_failures_logged_once(good: bool, between: Seq<DrainOutcome>)
    requires
        forall|i: int| 0 <= i < between.len() ==> between[i] != DrainOutcome::Stored,
    ensures
        !spec_observe(observe_all(spec_observe(good, DrainOutcome::Failed).1, between), DrainOutcome::Failed).0,
    decreases between.len(),
{
    if between.len() > 0 {
        lemma_failures_logged_once(good, between.drop_last());
    }
}

/// Whether the card counts as working after the outcomes `s`, starting from
/// `good`.
pub open spec fn observe_all(good: bool, s: Seq<DrainOutcome>) -> bool
    decreases s.len(),
{
    if s.len() == 0 {
        good
    } else {
        spec_observe(observe_all(good, s.drop_last()), s.last()).1
    }
}

/// Nothing to store changes nothing: from a card that worked, any run of idle
/// iterations followed by a failure logs that failure; a failure right after
/// a stored package is logged too, and a logged failure marks the card as
/// not working.
pub proof fn lemma_idle_changes_nothing(good: bool, idles: Seq<DrainOutcome>)
    requires
        forall|i: int| 0 <= i < idles.len() ==> idles[i] == DrainOutcome::Idle,
    ensures
        observe_all(good, idles) == good,
        spec_observe(observe_all(true, idles), DrainOutcome::Failed) == (true, false),
        spec_observe(spec_observe(good, DrainOutcome::Stored).1, DrainOutcome::Failed).0,
        !spec_observe(good, DrainOutcome::Idle).0 && !spec_observe(good, DrainOutcome::Stored).0,
    decreases idles.len(),
{
    if idles.len() > 0 {
        lemma_idle_changes_nothing(good, idles.drop_last());
        lemma_idle_changes_nothing(true, idles.drop_last());
    }
}

} // verus!
