//! Decisions taken when talking to the notecard: when to sync, when to stop
//! adding packages, how to answer a request for stored packages, and when the
//! record of sent packages on the notecard has to be updated.
//!
//! The notecard itself is driven outside the library; it reports what it
//! answered (storage use, sync status, the outcome of a send) and the functions
//! here decide what happens next.
use vstd::prelude::*;

use crate::storage::COLLECTION_SIZE;

verus! {

/// Initialize sync when storage use is above this percentage.
pub const NOTECARD_STORAGE_INIT_SYNC: u32 = 65;

/// Do not add more packages when storage use is above this percentage.
pub const NOTECARD_STORAGE_CAPACITY_PACKAGES: usize = 75;

/// With spectra: initialize sync above this percentage when the last sync was
/// over a non-terrestrial network (NTN).
pub const NOTECARD_STORAGE_INIT_SYNC_NTN: u32 = 75;

/// With spectra: do not add more packages above this percentage.
pub const NOTECARD_STORAGE_SPECTRUM_CAPACITY_PACKAGES: usize = 70;

/// With spectra: do not add more spectra above this percentage.
pub const NOTECARD_STORAGE_CAPACITY_NTN_PACKAGES: usize = 85;

/// The last sent package ID, as recorded on the notecard.
#[derive(Debug, Clone, Copy, PartialEq, Eq, Structural, Default)]
pub struct StorageIdInfo {
    pub sent_id: Option<u32>,
}

/// A request (from shore) for a range of stored packages.
#[derive(Debug, Clone, Copy, PartialEq, Eq, Structural, Default)]
pub struct RequestData {
    pub request_start: Option<u32>,
    pub request_end: Option<u32>,
}

/// Whether to start a sync, and over which network.
#[derive(Debug, Clone, Copy, PartialEq, Eq, Structural)]
pub enum SyncAction {
    /// Nothing to do.
    Wait,
    /// Start a regular sync.
    Sync,
    /// Start a sync that may go over a non-terrestrial network.
    SyncNtn,
}

/// Start a sync when the notecard storage is filling up (above
/// `NOTECARD_STORAGE_INIT_SYNC` percent) and no sync is requested already.
pub fn check_sync(storage: usize, sync_requested: bool) -> (a: SyncAction)
    ensures
        a == (if storage > NOTECARD_STORAGE_INIT_SYNC && !sync_requested {
            SyncAction::Sync
        } else {
            SyncAction::Wait
        }),
{
    if storage > NOTECARD_STORAGE_INIT_SYNC as usize && !sync_requested {
        SyncAction::Sync
    } else {
        SyncAction::Wait
    }
}

/// Sync policy when spectra are sent: remembers whether the last sync went
/// over a non-terrestrial network, in which case the notecard is allowed to
/// fill up more before syncing.
pub struct SpectrumSync {
    /// Time (seconds, as reported by the notecard) of the last sync over NTN.
    last_sync_ntn: Option<u32>,
}

impl SpectrumSync {
    pub closed spec fn spec_last_sync_ntn(&self) -> Option<u32> {
        self.last_sync_ntn
    }

    pub fn new() -> (s: SpectrumSync)
        ensures
            s.spec_last_sync_ntn() is None,
    {
        SpectrumSync { last_sync_ntn: None }
    }

    pub fn last_sync_ntn(&self) -> (r: Option<u32>)
        ensures
            r == self.spec_last_sync_ntn(),
    {
        self.last_sync_ntn
    }

    /// Record the wireless mode reported by the notecard: in NTN mode the
    /// current notecard time (when known) becomes the last NTN sync; in any
    /// other mode the last NTN sync is forgotten.
    pub fn observe_wireless(&mut self, mode_is_ntn: bool, time: Option<u32>)
        ensures
            final(self).spec_last_sync_ntn() == (if mode_is_ntn {
                if time is Some {
                    time
                } else {
                    old(self).spec_last_sync_ntn()
                }
            } else {
                None
            }),
    {
        if mode_is_ntn {
            if let Some(t) = time {
                self.last_sync_ntn = Some(t);
            }
        } else {
            self.last_sync_ntn = None;
        }
    }

    /// Start a sync when the storage use is above the limit: the NTN limit
    /// after a sync over NTN, the regular one otherwise; never when a sync is
    /// requested already.
    pub fn decide(&self, storage: usize, sync_requested: bool) -> (a: SyncAction)
        ensures
            a == (if self.spec_last_sync_ntn() is Some {
                if storage > NOTECARD_STORAGE_INIT_SYNC_NTN && !sync_requested {
                    SyncAction::SyncNtn
                } else {
                    SyncAction::Wait
                }
            } else {
                if storage > NOTECARD_STORAGE_INIT_SYNC && !sync_requested {
                    SyncAction::Sync
                } else {
                    SyncAction::Wait
                }
            }),
    {
        if self.last_sync_ntn.is_some() {
            if storage > NOTECARD_STORAGE_INIT_SYNC_NTN as usize && !sync_requested {
                SyncAction::SyncNtn
            } else {
                SyncAction::Wait
            }
        } else {
            check_sync(storage, sync_requested)
        }
    }
}

/// Whether a package may be added to the notecard given its storage use
/// (percent) and the limit for the kind of package.
pub fn has_room(storage: usize, capacity: usize) -> (r: bool)
    ensures
        r == (storage <= capacity),
{
    storage <= capacity
}

/// Outcome of handing a package to the notecard.
#[derive(Debug, Clone, Copy, PartialEq, Eq, Structural)]
pub enum SendOutcome {
    /// Sent, with the number of payload bytes.
    Sent(usize),
    /// Refused because the notecard is in NTN (package) mode.
    NtnMode,
    /// Any other error.
    Failed,
}

/// What to do after handing a package to the notecard.
#[derive(Debug, Clone, Copy, PartialEq, Eq, Structural)]
pub enum DrainStep {
    /// Go on with the next package; the total of bytes sent so far.
    Next(usize),
    /// Send the same package once more.
    Retry,
    /// Stop draining and report success with this number of bytes.
    Done(usize),
    /// Stop draining and report the error.
    Abort,
}

/// Decide the next step of draining a queue of packages to the notecard,
/// given the bytes sent so far, whether this was the first attempt for the
/// package, and the outcome. A failed package is retried once; failing twice
/// aborts. When `ntn_discards` is set (data packages), a refusal because of NTN
/// mode at the first attempt ends the draining with no bytes reported.
pub fn drain_step(total: usize, first_attempt: bool, outcome: SendOutcome, ntn_discards: bool) -> (s: DrainStep)
    requires
        outcome matches SendOutcome::Sent(n) ==> total + n <= usize::MAX,
    ensures
        s == (match outcome {
            SendOutcome::Sent(n) => DrainStep::Next((total + n) as usize),
            SendOutcome::NtnMode => if first_attempt && ntn_discards {
                DrainStep::Done(0)
            } else if first_attempt {
                DrainStep::Retry
            } else {
                DrainStep::Abort
            },
            SendOutcome::Failed => if first_attempt {
                DrainStep::Retry
            } else {
                DrainStep::Abort
            },
        }),
{
    match outcome {
        SendOutcome::Sent(n) => DrainStep::Next(total + n),
        SendOutcome::NtnMode => {
            if first_attempt && ntn_discards {
                DrainStep::Done(0)
            } else if first_attempt {
                DrainStep::Retry
            } else {
                DrainStep::Abort
            }
        },
        SendOutcome::Failed => {
            if first_attempt {
                DrainStep::Retry
            } else {
                DrainStep::Abort
            }
        },
    }
}

/// What to do after handing a log message to the notecard: go on with the next
/// one when it was sent, stop quietly when the notecard is in NTN mode (the
/// message is dropped), and report any other error.
pub fn log_step(outcome: SendOutcome) -> (s: DrainStep)
    ensures
        s == (match outcome {
            SendOutcome::Sent(_) => DrainStep::Next(0),
            SendOutcome::NtnMode => DrainStep::Done(0),
            SendOutcome::Failed => DrainStep::Abort,
        }),
{
    match outcome {
        SendOutcome::Sent(_) => DrainStep::Next(0),
        SendOutcome::NtnMode => DrainStep::Done(0),
        SendOutcome::Failed => DrainStep::Abort,
    }
}

/// Number of times (one a second) the sync status is polled when waiting
/// `timeout_ms` milliseconds for a sync to complete.
pub fn sync_polls(timeout_ms: u16) -> (n: u16)
    ensures
        n == timeout_ms / 1000,
{
    timeout_ms / 1000
}

/// The record to write on the notecard when updating the last sent ID, if it
/// differs from the `current` one: clearing the request also clears the sent
/// ID. `None` when nothing has to be written.
pub fn storage_info_update(sent_id: Option<u32>, clear_request: bool, current: Option<StorageIdInfo>) -> (r: Option<StorageIdInfo>)
    ensures
        ({
            let info = StorageIdInfo { sent_id: if clear_request { None } else { sent_id } };
            r == (if current == Some(info) {
                None::<StorageIdInfo>
            } else {
                Some(info)
            })
        }),
{
    let sent = if clear_request {
        None
    } else {
        sent_id
    };
    let info = StorageIdInfo { sent_id: sent };
    match current {
        Some(c) => {
            if c.sent_id == info.sent_id {
                None
            } else {
                Some(info)
            }
        },
        None => Some(info),
    }
}

/// The largest number of stored packages queued for one request at a time.
pub const REQUEST_BATCH: u32 = 100;

/// The range of stored packages to send for a request, `(first, last, end)`:
/// this batch is `first..=last`, and `end` is the last package of the whole
/// request (as far as stored); or `None` when the request is complete and should be cleared.
/// Sending resumes after the last sent ID (or at the start of the request),
/// never goes past the last stored package (the one before `next_id`), and
/// takes at most `REQUEST_BATCH` packages.
pub open spec fn spec_request_range(next_id: u32, sent_id: Option<u32>, request_start: u32, request_end: u32) -> Option<(u32, u32, u32)> {
    let first: u32 = if sent_id is Some { sent_id->0 } else { request_start };
    let last_stored: int = if next_id == 0 { 0 } else { next_id - 1 };
    let end: int = if request_end < last_stored { request_end as int } else { last_stored };
    if first < end {
        let last: int = if end < first + REQUEST_BATCH - 1 { end } else { first + REQUEST_BATCH - 1 };
        Some((first, last as u32, end as u32))
    } else {
        None
    }
}

/// The range of stored packages to send for a request (see `spec_request_range`).
pub fn request_range(next_id: u32, sent_id: Option<u32>, request_start: u32, request_end: u32) -> (r: Option<(u32, u32, u32)>)
    ensures
        r == spec_request_range(next_id, sent_id, request_start, request_end),
{
    let first = match sent_id {
        Some(s) => s,
        None => request_start,
    };
    let last_stored = next_id.saturating_sub(1);
    let end = if request_end < last_stored {
        request_end
    } else {
        last_stored
    };
    if first < end {
        let last = if (end as u64) < first as u64 + (REQUEST_BATCH - 1) as u64 {
            end
        } else {
            first + (REQUEST_BATCH - 1)
        };
        Some((first, last, end))
    } else {
        None
    }
}

/// Result of fetching a requested package from storage and queueing it.
#[derive(Debug, Clone, Copy, PartialEq, Eq, Structural)]
pub enum Fetched {
    /// Read and queued for the notecard.
    Queued,
    /// Read, but the notecard queue is full.
    QueueFull,
    /// The package (or its collection) does not exist on the card.
    Missing,
    /// Reading from the card failed.
    Failed,
}

/// An update of the record of sent packages.
#[derive(Debug, Clone, Copy, PartialEq, Eq, Structural)]
pub struct InfoUpdate {
    pub sent_id: Option<u32>,
    pub clear_request: bool,
}

/// What to do after fetching package `id` of a request ending at `end`.
#[derive(Debug, Clone, Copy, PartialEq, Eq, Structural)]
pub enum RequestStep {
    /// Write the update and go on with the next ID.
    Record(InfoUpdate),
    /// Stop for now, without writing anything.
    Halt,
    /// Write the update and stop for now.
    Skip(InfoUpdate),
    /// Write the update and report the error.
    Fail(InfoUpdate),
}

/// Decide what follows fetching package `id` of a request ending at `end`: a
/// queued package is recorded as sent (completing the request when it was the
/// last); a missing package skips the rest of its collection; a read error
/// clears the request.
pub fn request_step(id: u32, end: u32, fetched: Fetched) -> (s: RequestStep)
    requires
        fetched is Missing ==> (id / COLLECTION_SIZE + 1) * COLLECTION_SIZE <= u32::MAX,
    ensures
        s == (match fetched {
            Fetched::Queued => RequestStep::Record(InfoUpdate { sent_id: Some(id), clear_request: id >= end }),
            Fetched::QueueFull => RequestStep::Halt,
            Fetched::Missing => {
                let new_id = ((id / COLLECTION_SIZE + 1) * COLLECTION_SIZE) as u32;
                RequestStep::Skip(InfoUpdate { sent_id: Some(new_id), clear_request: new_id >= end })
            },
            Fetched::Failed => RequestStep::Fail(InfoUpdate { sent_id: None, clear_request: true }),
        }),
{
    match fetched {
        Fetched::Queued => RequestStep::Record(InfoUpdate { sent_id: Some(id), clear_request: id >= end }),
        Fetched::QueueFull => RequestStep::Halt,
        Fetched::Missing => {
            let new_id = (id / COLLECTION_SIZE + 1) * COLLECTION_SIZE;
            RequestStep::Skip(InfoUpdate { sent_id: Some(new_id), clear_request: new_id >= end })
        },
        Fetched::Failed => RequestStep::Fail(InfoUpdate { sent_id: None, clear_request: true }),
    }
}

/// Skipping a missing package always moves past it, to the first package of
/// the next collection.
pub proof fn lemma_missing_skips_forward(id: u32, end: u32)
    requires
        (id / COLLECTION_SIZE + 1) * COLLECTION_SIZE <= u32::MAX,
    ensures
        ({
            let new_id = (id / COLLECTION_SIZE + 1) * COLLECTION_SIZE;
            new_id > id && new_id % (COLLECTION_SIZE as int) == 0 && new_id - id <= COLLECTION_SIZE
        }),
{
    assert(id == (id / 100) * 100 + id % 100);
}

/// A request range never reaches past the last stored package nor takes more
/// than `REQUEST_BATCH` packages, and it starts after the last sent one.
pub proof fn lemma_request_range_bounds(next_id: u32, sent_id: Option<u32>, request_start: u32, request_end: u32)
    ensures
        spec_request_range(next_id, sent_id, request_start, request_end) matches Some((first, last, end)) ==> {
            &&& first <= last <= end
            &&& end < next_id
            &&& last <= request_end
            &&& last - first < REQUEST_BATCH
            &&& sent_id matches Some(s) ==> first == s
        },
{
}

/// A batch is as large as it may be: it holds `REQUEST_BATCH` packages, or
/// all packages up to the end of the request when fewer are left; it starts
/// right after the last sent package (or at the start of the request), and
/// there is a batch exactly when that start lies before the end.
pub proof fn lemma_request_batch_size(next_id: u32, sent_id: Option<u32>, request_start: u32, request_end: u32)
    ensures
        ({
            let first: int = match sent_id {
                Some(s) => s as int,
                None => request_start as int,
            };
            let end: int = if request_end as int <= next_id - 1 { request_end as int } else if next_id
                == 0 { 0 } else { next_id - 1 };
            match spec_request_range(next_id, sent_id, request_start, request_end) {
                Some((f, l, e)) => {
                    &&& f == first && e == end && first < end
                    &&& l - f + 1 == if end - first + 1 < REQUEST_BATCH { end - first + 1 } else {
                        REQUEST_BATCH as int
                    }
                },
                None => first >= end,
            }
        }),
{
}

} // verus!
