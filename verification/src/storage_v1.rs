//! The first layout of data packages on the SD-card: collections of 10 000
//! packages, so that the collection is the ID stripped of its last four digits
//! (package `1234567` goes into `123.1`).
use vstd::prelude::*;

use crate::axl::AXL_POSTCARD_SZ;
use crate::storage::{collection_fname_v, spec_collection_fname_v, spec_parts, lemma_fname_injective_v};

verus! {

/// Number of packages in one collection file.
pub const COLLECTION_SIZE: u32 = 10_000;

/// Version of the storage format, as written in collection file names.
pub const STORAGE_VERSION_STR: &'static str = "1";

/// Name of the collection file with number `c`.
pub open spec fn spec_collection_fname(c: nat) -> Seq<char> {
    spec_collection_fname_v(c, STORAGE_VERSION_STR@)
}

/// The file name of collection `c`: its decimal number, a dot and the storage
/// version.
pub fn collection_fname(c: u32) -> (f: String)
    ensures
        f@ == spec_collection_fname(c as nat),
{
    collection_fname_v(c, STORAGE_VERSION_STR)
}

/// Collection file, position in the collection and byte offset of the start of
/// the package with ID `id` in its collection file.
pub fn id_to_parts(id: u32) -> (r: (String, u32, usize))
    ensures
        r.0@ == spec_collection_fname(spec_parts(id as nat, COLLECTION_SIZE as nat).0),
        r.1 == spec_parts(id as nat, COLLECTION_SIZE as nat).1,
        r.2 == spec_parts(id as nat, COLLECTION_SIZE as nat).2,
{
    let collection = id / COLLECTION_SIZE;
    let fileid = id % COLLECTION_SIZE;
    let offset = fileid as usize * AXL_POSTCARD_SZ;
    let collection = collection_fname(collection);
    (collection, fileid, offset)
}

/// Different collections are stored in files with different names.
pub proof fn lemma_collection_fname_injective(a: nat, b: nat)
    ensures
        spec_collection_fname(a) == spec_collection_fname(b) ==> a == b,
{
    reveal_strlit("1");
    lemma_fname_injective_v(a, b, STORAGE_VERSION_STR@);
}

/// The package IDs handed out by the first storage layout: the next free ID,
/// set when the card is opened.
pub struct StorageIds {
    current_id: Option<u32>,
}

impl StorageIds {
    pub closed spec fn spec_current_id(&self) -> Option<u32> {
        self.current_id
    }

    /// No ID known yet.
    pub fn new() -> (s: StorageIds)
        ensures
            s.spec_current_id() is None,
    {
        StorageIds { current_id: None }
    }

    /// The card was opened and `first_free` is its first free collection: IDs
    /// start at the beginning of that collection.
    pub fn opened(&mut self, first_free: u32)
        requires
            first_free * COLLECTION_SIZE <= u32::MAX,
        ensures
            final(self).spec_current_id() == Some((first_free * COLLECTION_SIZE) as u32),
    {
        self.current_id = Some(first_free * COLLECTION_SIZE);
    }

    /// The current (next free) ID.
    pub fn current_id(&self) -> (r: Option<u32>)
        ensures
            r == self.spec_current_id(),
    {
        self.current_id
    }

    /// Set the current ID, but do not write to card.
    pub fn set_id(&mut self, id: u32)
        ensures
            final(self).spec_current_id() == Some(id),
    {
        self.current_id = Some(id);
    }

    /// Take the ID for a package about to be stored, and move to the next.
    pub fn take_id(&mut self) -> (id: u32)
        requires
            old(self).spec_current_id() is Some,
            old(self).spec_current_id()->0 < u32::MAX,
        ensures
            id == old(self).spec_current_id()->0,
            final(self).spec_current_id() == Some((id + 1) as u32),
    {
        let id = self.current_id.unwrap();
        self.current_id = Some(id + 1);
        id
    }
}

} // verus!
