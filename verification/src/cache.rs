//! The record-store semantics: what comparing a fresh digest against the
//! prior record for a key yields, what a run leaves behind, and what a reset
//! forgets.  The store itself is a directory of files owned by the caller;
//! this module fixes, over a map from keys to record bytes, what every
//! observation must read, decide and write.

use vstd::prelude::*;
use crate::digest::Digest;
use crate::entry::bytes_eq;

verus! {

/// The outcome of one run.  Noop stands where caching was never asked for;
/// the other three compare the fresh digest to the prior record.
#[derive(Debug, Clone, Copy, PartialEq, Eq, Structural)]
pub enum Status {
    /// Caching was not requested; the digest itself is the result.
    Noop,
    /// No prior record existed for the key.
    New,
    /// The prior record equals the fresh digest.
    Same,
    /// The prior record differs from the fresh digest.
    Changed,
}

/// What comparing a fresh digest against a prior record yields: New without
/// a record, Same when the bytes agree, Changed otherwise.  A record that
/// existed but could not be read is handed in as absent.
pub open spec fn decide_spec(prior: Option<Seq<u8>>, digest: Seq<u8>) -> Status {
    match prior {
        Option::None => Status::New,
        Option::Some(p) => if p == digest {
            Status::Same
        } else {
            Status::Changed
        },
    }
}

/// The bytes of an optional record.
pub open spec fn record_view(prior: Option<Vec<u8>>) -> Option<Seq<u8>> {
    match prior {
        Option::None => Option::None,
        Option::Some(p) => Option::Some(p@),
    }
}

/// Decides the status of a fresh digest against the prior record's bytes, if
/// any were readable.
pub fn decide_status(prior: &Option<Vec<u8>>, digest: &Digest) -> (s: Status)
    ensures
        s == decide_spec(record_view(*prior), digest@),
{
    match prior {
        Option::None => Status::New,
        Option::Some(p) => {
            if bytes_eq(p, digest.as_bytes()) {
                Status::Same
            } else {
                Status::Changed
            }
        },
    }
}

/// A record store as a value: the digest bytes last stored under each key.
pub type StoreModel = Map<u64, Seq<u8>>;

/// The status one observation of a key reports against a store.
pub open spec fn store_status(store: StoreModel, key: u64, digest: Seq<u8>) -> Status {
    if store.dom().contains(key) {
        decide_spec(Option::Some(store[key]), digest)
    } else {
        decide_spec(Option::None, digest)
    }
}

/// The store an observation leaves behind: the fresh digest is written under
/// the key in every case, so the record always holds the latest observation.
pub open spec fn store_after(store: StoreModel, key: u64, digest: Seq<u8>) -> StoreModel {
    store.insert(key, digest)
}

/// The store a reset leaves behind: no records at all.
pub open spec fn store_reset() -> StoreModel {
    Map::empty()
}

/// A first observation of a previously unused key reports New and leaves the
/// record equal to the fresh digest; an immediate second observation with the
/// same digest reports Same.
pub proof fn lemma_new_then_same(store: StoreModel, key: u64, digest: Seq<u8>)
    requires
        !store.dom().contains(key),
    ensures
        store_status(store, key, digest) == Status::New,
        store_after(store, key, digest)[key] == digest,
        store_status(store_after(store, key, digest), key, digest) == Status::Same,
{
}

/// Once a record is held, an observation with a different digest reports
/// Changed, and the unchanged observation after it reports Same again.
pub proof fn lemma_changed_then_same(store: StoreModel, key: u64, prior: Seq<u8>, digest: Seq<u8>)
    requires
        store.dom().contains(key),
        store[key] == prior,
        prior != digest,
    ensures
        store_status(store, key, digest) == Status::Changed,
        store_status(store_after(store, key, digest), key, digest) == Status::Same,
{
}

/// A reset forgets every record: it leaves an empty store, and every key
/// observed after it, previously known or not, reports New.
pub proof fn lemma_reset_forgets(key: u64, digest: Seq<u8>)
    ensures
        store_reset().dom() =~= Set::empty(),
        store_status(store_reset(), key, digest) == Status::New,
{
}

} // verus!
