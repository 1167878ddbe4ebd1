//! Layout of data packages on the SD-card, and the state of the card.
//!
//! Every data package is stored on the SD-card and queued for the notecard. A
//! package with ID `1234567` goes into the collection file `12345.X`, where `X`
//! is the version of the storage format: the collection is the ID stripped of
//! its last two digits, so that each collection file holds `COLLECTION_SIZE`
//! packages. A FAT32 directory holds at most 65536 files, which bounds the
//! number of collections.
use vstd::prelude::*;

use crate::axl::AXL_POSTCARD_SZ;
use crate::decimal::{dec, push_decimal, lemma_dec_injective, lemma_dec_digits, is_digit};

verus! {

/// Number of packages in one collection file.
pub const COLLECTION_SIZE: u32 = 100;

/// Version of the storage format.
pub const STORAGE_VERSION: u32 = 2;

/// Version of the storage format, as written in collection file names.
pub const STORAGE_VERSION_STR: &'static str = "2";

/// The number of collection files a FAT32 directory can hold.
pub const MAX_COLLECTIONS: u32 = 65536;

/// Seconds to wait before re-trying to initialize the SD-card.
pub const SD_RETRY_DELAY: i32 = 600;

/// Errors from the storage layer.
#[derive(Debug, Clone, Copy, PartialEq, Eq, Structural)]
pub enum StorageErr {
    /// The underlying SD-card driver failed.
    SdMmcErr,
    /// An operation on the file system failed.
    GenericSdMmmcErr,
    /// A requested file (or package in a collection) does not exist.
    FileNotFound,
    ParseIDFailure,
    WriteIDFailure,
    WriteError,
    ReadPackageError,
    SerializationError,
    /// No free collection is left on the card.
    DiskFull,
    /// The card is not (yet) initialized.
    Uninitialized,
}

/// Clock speed requested from the SPI bus when talking to the card.
#[derive(Debug, Clone, Copy, PartialEq, Eq, Structural)]
pub enum SdSpiSpeed {
    Low,
    High,
}

/// Name of the collection file with number `c` for storage format `version`.
pub open spec fn spec_collection_fname_v(c: nat, version: Seq<char>) -> Seq<char> {
    dec(c) + seq!['.'] + version
}

/// Name of the collection file with number `c`.
pub open spec fn spec_collection_fname(c: nat) -> Seq<char> {
    spec_collection_fname_v(c, STORAGE_VERSION_STR@)
}

/// Collection number, position in the collection and byte offset in the
/// collection file of the package with ID `id`, for collections of
/// `size` packages.
pub open spec fn spec_parts(id: nat, size: nat) -> (nat, nat, nat) {
    (id / size, id % size, (id % size) * (AXL_POSTCARD_SZ as nat))
}

pub(crate) fn collection_fname_v(c: u32, version: &str) -> (f: String)
    ensures
        f@ == spec_collection_fname_v(c as nat, version@),
{
    let mut f = String::new();
    push_decimal(&mut f, c as u64);
    proof {
        reveal_strlit(".");
    }
    f.append(".");
    f.append(version);
    f
}

/// The file name of collection `c`: its decimal number, a dot and the storage
/// version.
pub fn collection_fname(c: u32) -> (f: String)
    ensures
        f@ == spec_collection_fname(c as nat),
{
    collection_fname_v(c, STORAGE_VERSION_STR)
}

/// Collection file, position in the collection and byte offset of the start of
/// the package with ID `id` in its collection file.
pub fn id_to_parts(id: u32) -> (r: (String, u32, usize))
    ensures
        r.0@ == spec_collection_fname(spec_parts(id as nat, COLLECTION_SIZE as nat).0),
        r.1 == spec_parts(id as nat, COLLECTION_SIZE as nat).1,
        r.2 == spec_parts(id as nat, COLLECTION_SIZE as nat).2,
{
    let collection = id / COLLECTION_SIZE;
    let fileid = id % COLLECTION_SIZE;
    let offset = fileid as usize * AXL_POSTCARD_SZ;
    let collection = collection_fname(collection);
    (collection, fileid, offset)
}

pub proof fn lemma_fname_injective_v(a: nat, b: nat, version: Seq<char>)
    requires
        forall|i: int| 0 <= i < version.len() ==> #[trigger] is_digit(version[i]),
    ensures
        spec_collection_fname_v(a, version) == spec_collection_fname_v(b, version) ==> a == b,
{
    if spec_collection_fname_v(a, version) == spec_collection_fname_v(b, version) {
        lemma_dec_digits(a);
        lemma_dec_digits(b);
        let fa = spec_collection_fname_v(a, version);
        let fb = spec_collection_fname_v(b, version);
        let la = dec(a).len() as int;
        let lb = dec(b).len() as int;
        // The dot is the only non-digit in a file name, so it sits at the
        // same place in both names.
        assert(fa[la] == '.');
        assert(fb[lb] == '.');
        if la < lb {
            assert(fb[la] == dec(b)[la]);
            assert(is_digit(dec(b)[la]));
            assert(false);
        } else if lb < la {
            assert(fa[lb] == dec(a)[lb]);
            assert(is_digit(dec(a)[lb]));
            assert(false);
        }
        assert(dec(a) =~= fa.subrange(0, la));
        assert(dec(b) =~= fb.subrange(0, lb));
        lemma_dec_injective(a, b);
    }
}

/// Different collections are stored in files with different names.
pub proof fn lemma_collection_fname_injective(a: nat, b: nat)
    ensures
        spec_collection_fname(a) == spec_collection_fname(b) ==> a == b,
{
    reveal_strlit("2");
    lemma_fname_injective_v(a, b, STORAGE_VERSION_STR@);
}

/// Different package IDs are stored at different places: either in different
/// collection files or at different offsets in the same file, and the ID is
/// recovered from its collection and position.
pub proof fn lemma_id_parts_unique(a: nat, b: nat)
    requires
        a != b,
    ensures
        spec_collection_fname(spec_parts(a, COLLECTION_SIZE as nat).0)
            != spec_collection_fname(spec_parts(b, COLLECTION_SIZE as nat).0)
            || spec_parts(a, COLLECTION_SIZE as nat).2 != spec_parts(b, COLLECTION_SIZE as nat).2,
        a == spec_parts(a, COLLECTION_SIZE as nat).0 * (COLLECTION_SIZE as nat)
            + spec_parts(a, COLLECTION_SIZE as nat).1,
{
    lemma_collection_fname_injective(a / 100, b / 100);
    assert(a == (a / 100) * 100 + a % 100);
    assert(b == (b / 100) * 100 + b % 100);
    assert((a % 100) * 10240 != (b % 100) * 10240 || a % 100 == b % 100);
}

/// A package always fits inside its collection file, and a full collection
/// file stays below the FAT32 limit of 4 GiB.
pub proof fn lemma_package_within_collection(id: nat)
    ensures
        spec_parts(id, COLLECTION_SIZE as nat).2 + AXL_POSTCARD_SZ
            <= (COLLECTION_SIZE as nat) * (AXL_POSTCARD_SZ as nat),
        (COLLECTION_SIZE as nat) * (AXL_POSTCARD_SZ as nat) < 4 * 1024 * 1024 * 1024,
{
    assert(id % 100 < 100);
    assert((id % 100) * 10240 + 10240 <= 100 * 10240) by (nonlinear_arith)
        requires
            id % 100 < 100,
    ;
}

/// State of the SD-card.
#[derive(Debug, Clone, Copy, PartialEq, Eq, Structural)]
pub enum SdState {
    /// Not initialized: the next access initializes the card.
    Uninitialized,
    /// Initialization failed at `last_try` (seconds); wait before re-trying.
    Retry { last_try: i32 },
    /// Initialized, `next_id` is the next free package ID.
    Initialized { next_id: u32 },
}

/// What an access to the card in `state` at time `now` (seconds) does, and
/// the state afterwards: a card that failed to initialize is re-tried only
/// once more than `SD_RETRY_DELAY` seconds have passed, and before an
/// initialization the state becomes `Retry { last_try: now }`.
pub open spec fn spec_acquire(state: SdState, now: int) -> (AcquireStep, SdState) {
    match state {
        SdState::Retry { last_try } => if now - last_try > SD_RETRY_DELAY {
            (AcquireStep::Initialize, SdState::Retry { last_try: now as i32 })
        } else {
            (AcquireStep::Wait, state)
        },
        SdState::Uninitialized => (AcquireStep::Initialize, SdState::Retry { last_try: now as i32 }),
        SdState::Initialized { .. } => (AcquireStep::Reuse, state),
    }
}

/// What an access to the card has to do.
#[derive(Debug, Clone, Copy, PartialEq, Eq, Structural)]
pub enum AcquireStep {
    /// A recent initialization failed: do not touch the card yet.
    Wait,
    /// Initialize the card (slow): then report the first free collection with
    /// `initialized`, or report failure with `failed`.
    Initialize,
    /// The card is initialized: acquire it.
    Reuse,
}

/// The part of the SD-card storage that decides when the card is (re-)initialized
/// and which ID the next package gets.
pub struct Storage {
    state: SdState,
}

impl Storage {
    pub closed spec fn spec_state(&self) -> SdState {
        self.state
    }

    /// An un-initialized storage.
    pub fn open() -> (s: Storage)
        ensures
            s.spec_state() == SdState::Uninitialized,
    {
        Storage { state: SdState::Uninitialized }
    }

    /// The current state of the card.
    pub fn state(&self) -> (s: SdState)
        ensures
            s == self.spec_state(),
    {
        self.state
    }

    /// The next free ID, if the card is initialized.
    pub fn next_id(&self) -> (r: Option<u32>)
        ensures
            r == (match self.spec_state() {
                SdState::Initialized { next_id } => Some(next_id),
                _ => None,
            }),
    {
        match self.state {
            SdState::Initialized { next_id } => Some(next_id),
            _ => None,
        }
    }

    /// Forget the card: the next access initializes it again.
    pub fn deinit(&mut self)
        ensures
            final(self).spec_state() == SdState::Uninitialized,
    {
        self.state = SdState::Uninitialized;
    }

    /// Decide what an access to the card at time `now` (seconds) does. A card
    /// that failed to initialize is re-tried only once more than
    /// `SD_RETRY_DELAY` seconds have passed. Before an initialization the state
    /// becomes `Retry { last_try: now }`, so that a failure is not re-tried at
    /// once.
    pub fn acquire(&mut self, now: i32) -> (step: AcquireStep)
        requires
            old(self).spec_state() matches SdState::Retry { last_try }
                ==> i32::MIN <= now - last_try <= i32::MAX,
        ensures
            (step, final(self).spec_state()) == spec_acquire(old(self).spec_state(), now as int),
    {
        match self.state {
            SdState::Retry { last_try } => {
                if now - last_try > SD_RETRY_DELAY {
                    self.state = SdState::Retry { last_try: now };
                    AcquireStep::Initialize
                } else {
                    AcquireStep::Wait
                }
            },
            SdState::Uninitialized => {
                self.state = SdState::Retry { last_try: now };
                AcquireStep::Initialize
            },
            SdState::Initialized { .. } => AcquireStep::Reuse,
        }
    }

    /// The card was initialized and `first_free` is its first free
    /// collection: the next package starts that collection.
    pub fn initialized(&mut self, first_free: u32)
        requires
            first_free < MAX_COLLECTIONS,
        ensures
            final(self).spec_state() == (SdState::Initialized {
                next_id: (first_free * COLLECTION_SIZE) as u32,
            }),
    {
        self.state = SdState::Initialized { next_id: first_free * COLLECTION_SIZE };
    }

    /// Acquiring, reading or writing the card failed: the next access
    /// initializes it again. (A failed initialization keeps its `Retry` state
    /// instead.)
    pub fn failed(&mut self)
        ensures
            final(self).spec_state() == SdState::Uninitialized,
    {
        self.state = SdState::Uninitialized;
    }

    /// The collection that the next ID would start, if handing out the next ID
    /// rolls over into a new collection. That collection must then be checked
    /// to be free before calling `advance_id`.
    pub fn pending_rollover(&self) -> (r: Option<u32>)
        requires
            self.spec_state() matches SdState::Initialized { next_id } ==> next_id < u32::MAX,
        ensures
            r == (match self.spec_state() {
                SdState::Initialized { next_id } => if (next_id + 1) % (COLLECTION_SIZE as int) == 0 {
                    Some(((next_id + 1) / (COLLECTION_SIZE as int)) as u32)
                } else {
                    None
                },
                _ => None,
            }),
    {
        match self.state {
            SdState::Initialized { next_id } => {
                let next = next_id + 1;
                if next % COLLECTION_SIZE == 0 {
                    Some(next / COLLECTION_SIZE)
                } else {
                    None
                }
            },
            _ => None,
        }
    }

    /// Hand out the next free ID. When the following ID starts a new
    /// collection, `next_free` is the outcome of looking for the first free
    /// collection at or after it on the card (`None` when no lookup was made).
    /// If the lookup failed, its error is returned and the next ID stays as it
    /// was. If it found a later collection, the IDs jump to its start, so that
    /// a collection written before is never appended to.
    pub fn advance_id(&mut self, next_free: Option<Result<u32, StorageErr>>) -> (r: Result<u32, StorageErr>)
        requires
            old(self).spec_state() matches SdState::Initialized { next_id } ==> next_id < u32::MAX,
            next_free matches Some(Ok(nc)) ==> nc < MAX_COLLECTIONS,
        ensures
            match old(self).spec_state() {
                SdState::Initialized { next_id } => {
                    let next = next_id + 1;
                    let c = next / (COLLECTION_SIZE as int);
                    let rollover = next % (COLLECTION_SIZE as int) == 0;
                    match next_free {
                        Some(Err(e)) if rollover => r == Err::<u32, StorageErr>(e)
                            && final(self).spec_state() == old(self).spec_state(),
                        Some(Ok(nc)) if rollover && nc > c => r == Ok::<u32, StorageErr>(next_id)
                            && final(self).spec_state() == (SdState::Initialized {
                            next_id: (nc * COLLECTION_SIZE) as u32,
                        }),
                        _ => r == Ok::<u32, StorageErr>(next_id) && final(self).spec_state() == (
                        SdState::Initialized { next_id: next as u32 }),
                    }
                },
                _ => r == Err::<u32, StorageErr>(StorageErr::Uninitialized) && final(self).spec_state()
                    == old(self).spec_state(),
            },
            r matches Ok(id) ==> (final(self).spec_state() matches SdState::Initialized { next_id }
                && next_id > id),
    {
        match self.state {
            SdState::Initialized { next_id } => {
                let current = next_id;
                let mut next = next_id + 1;
                let mut found: Option<u32> = None;
                if next % COLLECTION_SIZE == 0 {
                    let c = next / COLLECTION_SIZE;
                    match next_free {
                        Some(Err(e)) => {
                            return Err(e);
                        },
                        Some(Ok(nc)) => {
                            found = Some(nc);
                            if nc > c {
                                next = nc * COLLECTION_SIZE;
                            }
                        },
                        None => {},
                    }
                }
                self.state = SdState::Initialized { next_id: next };
                proof {
                    lemma_advance_id_increases(current, found, next);
                }
                Ok(current)
            },
            _ => Err(StorageErr::Uninitialized),
        }
    }
}

/// Starting up the card: from an uninitialized card (or one whose last
/// failed initialization is older than `SD_RETRY_DELAY`), an access at `now`
/// initializes it. If that succeeds with first free collection `first_free`,
/// the card is initialized with the next ID at the start of that collection
/// and later accesses reuse it. If it fails, the state stays
/// `Retry { last_try: now }`: accesses within `SD_RETRY_DELAY` seconds wait,
/// and a later one initializes again.
pub proof fn lemma_card_start_up(state: SdState, now: i32, first_free: u32, later: i32)
    requires
        state is Uninitialized || (state matches SdState::Retry { last_try } && now - last_try > SD_RETRY_DELAY),
        first_free < MAX_COLLECTIONS,
    ensures
        spec_acquire(state, now as int) == (AcquireStep::Initialize, SdState::Retry { last_try: now }),
        ({
            let ok = SdState::Initialized { next_id: (first_free * COLLECTION_SIZE) as u32 };
            spec_acquire(ok, later as int) == (AcquireStep::Reuse, ok)
        }),
        later - now <= SD_RETRY_DELAY ==> spec_acquire(SdState::Retry { last_try: now }, later as int) == (
        AcquireStep::Wait, SdState::Retry { last_try: now }),
        later - now > SD_RETRY_DELAY ==> spec_acquire(SdState::Retry { last_try: now }, later as int) == (
        AcquireStep::Initialize, SdState::Retry { last_try: later }),
{
}

/// Handing out an ID always moves the next free ID forward: no ID is handed
/// out twice while the card stays initialized.
pub proof fn lemma_advance_id_increases(next_id: u32, next_free: Option<u32>, new_next: u32)
    requires
        next_id < u32::MAX,
        next_free matches Some(nc) ==> nc < MAX_COLLECTIONS,
        new_next == (if (next_id + 1) % (COLLECTION_SIZE as int) == 0 && next_free is Some
            && next_free->0 > (next_id + 1) / (COLLECTION_SIZE as int) {
            (next_free->0 * COLLECTION_SIZE) as u32
        } else {
            (next_id + 1) as u32
        }),
    ensures
        new_next > next_id,
{
    if (next_id + 1) % 100 == 0 && next_free is Some && next_free->0 > (next_id + 1) / 100 {
        let nc = next_free->0 as int;
        let c = (next_id + 1) / 100;
        assert(nc >= c + 1);
        assert(nc * 100 >= (c + 1) * 100) by (nonlinear_arith)
            requires
                nc >= c + 1,
        ;
        assert((next_id + 1) == c * 100);
    }
}

/// The first collection at or after `start` whose file is not among `names`
/// (the files in the root directory of the card).
pub fn first_free_collection(names: &Vec<String>, start: u32) -> (r: Result<u32, StorageErr>)
    ensures
        match r {
            Ok(c) => start <= c < MAX_COLLECTIONS && !names@.map_values(|n: String| n@).contains(
                spec_collection_fname(c as nat),
            ) && forall|k: nat|
                start <= k < c ==> names@.map_values(|n: String| n@).contains(
                    #[trigger] spec_collection_fname(k),
                ),
            Err(e) => e == StorageErr::DiskFull && forall|k: nat|
                start <= k < MAX_COLLECTIONS ==> names@.map_values(|n: String| n@).contains(
                    #[trigger] spec_collection_fname(k),
                ),
        },
{
    let ghost views = names@.map_values(|n: String| n@);
    let mut c: u32 = start;
    while c < MAX_COLLECTIONS
        invariant
            start <= c || start >= MAX_COLLECTIONS,
            c >= start,
            views == names@.map_values(|n: String| n@),
            forall|k: nat| start <= k < c ==> views.contains(#[trigger] spec_collection_fname(k)),
        decreases MAX_COLLECTIONS - c,
    {
        let f = collection_fname(c);
        let mut found = false;
        let mut i: usize = 0;
        while i < names.len()
            invariant
                i <= names.len(),
                views == names@.map_values(|n: String| n@),
                f@ == spec_collection_fname(c as nat),
                found ==> views.contains(f@),
                !found ==> forall|j: int| 0 <= j < i ==> views[j] != f@,
            decreases names.len() - i,
        {
            if names[i] == f {
                found = true;
                assert(views[i as int] == f@);
            }
            i = i + 1;
        }
        if !found {
            proof {
                assert forall|j: int| 0 <= j < views.len() implies views[j] != f@ by {}
            }
            return Ok(c);
        }
        c = c + 1;
    }
    Err(StorageErr::DiskFull)
}

/// An access to an initialized card always reuses it and keeps its state,
/// whatever the next ID and the time.
pub proof fn lemma_initialized_reused(next_id: u32, now: int)
    ensures
        spec_acquire(SdState::Initialized { next_id }, now) == (AcquireStep::Reuse, SdState::Initialized { next_id }),
{
}

} // verus!
