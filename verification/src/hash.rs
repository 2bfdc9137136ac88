//! The aggregate: one cumulative digest and one cache key for a set of
//! entries, the status against a prior record, the rendering of the result,
//! and the plan a run hands its caller.

use vstd::prelude::*;
use vstd::relations::sorted_by;
use vstd::seq_lib::lemma_sorted_unique;
use crate::cache::Status;
use crate::cache::decide_spec;
use crate::cache::decide_status;
use crate::cache::record_view;
use crate::digest::Digest;
use crate::digest::blake3_hash;
use crate::digest::blake3_of;
use crate::digest::hex_of;
use crate::entry::EntryV;
use crate::entry::PathEntry;
use crate::entry::entries_view;
use crate::entry::entry_order;
use crate::entry::lemma_entry_le_total_ordering;
use crate::entry::sort_entries;
use crate::error::CheckSameError;
use crate::key::KEY_A;
use crate::key::KEY_B;
use crate::key::ahash_paths;
use crate::key::key_hash;

verus! {

/// The paths of a sequence of entry views, in the same order.
pub open spec fn paths_of(vs: Seq<EntryV>) -> Seq<Seq<u8>> {
    vs.map_values(|e: EntryV| e.path)
}

/// The entry views arranged in the entry order.
pub open spec fn sorted_entries(vs: Seq<EntryV>) -> Seq<EntryV> {
    vs.sort_by(entry_order())
}

/// The digests of a sequence of entry views, concatenated in order.
pub open spec fn concat_digests(vs: Seq<EntryV>) -> Seq<u8>
    decreases vs.len(),
{
    if vs.len() == 0 {
        Seq::empty()
    } else {
        concat_digests(vs.drop_last()) + vs.last().digest
    }
}

/// The cumulative digest of a set of entries: the hash of their digests
/// concatenated in sorted order.
pub open spec fn cumulative_of(vs: Seq<EntryV>) -> Seq<u8> {
    blake3_of(concat_digests(sorted_entries(vs)))
}

/// The cache key of a set of entries: the path hash over their paths in
/// sorted order, under the fixed keys.
pub open spec fn cache_key_of(vs: Seq<EntryV>) -> u64 {
    key_hash(KEY_A, KEY_B, paths_of(sorted_entries(vs)))
}

/// The digest bytes of the entries, concatenated in the order given.
fn concat_digest_bytes(entries: &Vec<PathEntry>) -> (r: Vec<u8>)
    ensures
        r@ == concat_digests(entries_view(entries@)),
{
    let ghost vs = entries_view(entries@);
    let mut buf: Vec<u8> = Vec::new();
    let mut i: usize = 0;
    proof {
        assert(vs.take(0) =~= Seq::<EntryV>::empty());
    }
    while i < entries.len()
        invariant
            i <= entries@.len(),
            vs == entries_view(entries@),
            buf@ == concat_digests(vs.take(i as int)),
        decreases entries@.len() - i,
    {
        let e = &entries[i];
        let bytes = e.digest.as_bytes();
        let ghost before = buf@;
        let mut j: usize = 0;
        while j < bytes.len()
            invariant
                j <= bytes@.len(),
                bytes@ == entries@[i as int].digest@,
                i < entries@.len(),
                buf@ == before + bytes@.take(j as int),
            decreases bytes@.len() - j,
        {
            buf.push(bytes[j]);
            proof {
                assert(bytes@.take(j as int).push(bytes@[j as int]) =~= bytes@.take(j as int + 1));
            }
            j = j + 1;
        }
        proof {
            assert(bytes@.take(bytes@.len() as int) =~= bytes@);
            assert(vs.take(i as int + 1).drop_last() =~= vs.take(i as int));
            assert(vs.take(i as int + 1).last() == vs[i as int]);
            assert(vs[i as int].digest == entries@[i as int].digest@);
        }
        i = i + 1;
    }
    proof {
        assert(vs.take(vs.len() as int) =~= vs);
    }
    buf
}

/// The result of one run: the cache key of the path set, the cumulative
/// digest of its content, and the status decided against the prior record.
pub struct CheckSame {
    /// The 64-bit identifier of the path set, naming its record.
    pub key: u64,
    /// The cumulative digest of the set's content.
    pub hash: Digest,
    /// The outcome; Noop until a comparison is made.
    pub status: Status,
}

/// What a run asks its caller to do to the cache directory, in order.
pub struct Plan {
    /// Create the cache directory if it does not exist, before anything else.
    pub ensure_cache_dir: bool,
    /// Delete every record file in it.
    pub reset_records: bool,
    /// Read the prior record for the key, decide the status, and write the
    /// fresh digest under the key in every case.
    pub compare_cache: bool,
}

/// A prepared run: either nothing to hash with only a reset to carry out, or
/// an aggregate with the cache steps it asks for.
pub enum Prepared {
    /// The path list was empty and reset was requested: clear the records,
    /// report nothing.
    ResetOnly,
    /// The aggregate and the cache steps to carry out.
    Run(CheckSame, Plan),
}

/// How a result is shown: the digest in lowercase hex when caching was not
/// asked for, otherwise `-1`, `0` or `1` for New, Same and Changed.
pub open spec fn render_spec(status: Status, digest: Seq<u8>) -> Seq<char> {
    match status {
        Status::Noop => hex_of(digest),
        Status::New => seq!['-', '1'],
        Status::Same => seq!['0'],
        Status::Changed => seq!['1'],
    }
}

impl CheckSame {
    /// Aggregates a set of entries: sorts them in the entry order, derives
    /// the cache key from the sorted paths and the cumulative digest from the
    /// sorted per-file digests, with no status yet.
    pub fn from_entries(entries: Vec<PathEntry>) -> (r: CheckSame)
        ensures
            r.key == cache_key_of(entries_view(entries@)),
            r.hash@ == cumulative_of(entries_view(entries@)),
            r.hash.wf(),
            r.status == Status::Noop,
    {
        let ghost vs = entries_view(entries@);
        let sorted = sort_entries(entries);
        let key = ahash_paths(KEY_A, KEY_B, &sorted);
        proof {
            assert(sorted@.map_values(|e: PathEntry| e.path@) =~= paths_of(entries_view(sorted@)));
        }
        let buf = concat_digest_bytes(&sorted);
        let hashed = blake3_hash(&buf);
        let hash = Digest::from_bytes(hashed).unwrap();
        CheckSame { key, hash, status: Status::Noop }
    }

    /// Decides the status against the prior record's bytes, if any were
    /// readable, leaving key and digest as they are.
    pub fn with_status(self, prior: &Option<Vec<u8>>) -> (r: CheckSame)
        ensures
            r.key == self.key,
            r.hash == self.hash,
            r.status == decide_spec(record_view(*prior), self.hash@),
    {
        let status = decide_status(prior, &self.hash);
        CheckSame { key: self.key, hash: self.hash, status }
    }

    /// Renders the result for display.
    pub fn render(&self) -> (r: String)
        ensures
            r@ == render_spec(self.status, self.hash@),
    {
        match self.status {
            Status::Noop => self.hash.to_hex(),
            Status::New => {
                proof {
                    reveal_strlit("-1");
                }
                let s = String::from_str("-1");
                proof {
                    assert(s@ =~= seq!['-', '1']);
                }
                s
            },
            Status::Same => {
                proof {
                    reveal_strlit("0");
                }
                let s = String::from_str("0");
                proof {
                    assert(s@ =~= seq!['0']);
                }
                s
            },
            Status::Changed => {
                proof {
                    reveal_strlit("1");
                }
                let s = String::from_str("1");
                proof {
                    assert(s@ =~= seq!['1']);
                }
                s
            },
        }
    }

    /// Prepares one run from the entries and the two mode flags.  An empty
    /// path list with reset requested is a silent success that only clears
    /// the records; an empty list without it is refused.  Otherwise the
    /// aggregate is built, and the plan asks for the cache directory exactly
    /// when a flag needs it, for the reset exactly when requested, and for
    /// the comparison exactly in cache mode.
    pub fn new(entries: Vec<PathEntry>, reset: bool, cache: bool) -> (r: Result<
        Prepared,
        CheckSameError,
    >)
        ensures
            entries@.len() == 0 && reset ==> (r matches Ok(p) && p is ResetOnly),
            entries@.len() == 0 && !reset ==> (r matches Err(e) && e == CheckSameError::NoFiles),
            entries@.len() > 0 ==> (r matches Ok(p) && p matches Prepared::Run(c, plan)
                && c.key == cache_key_of(entries_view(entries@)) && c.hash@ == cumulative_of(
                entries_view(entries@),
            ) && c.hash.wf() && c.status == Status::Noop && plan.ensure_cache_dir == (reset || cache)
                && plan.reset_records == reset && plan.compare_cache == cache),
    {
        if entries.len() == 0 {
            if reset {
                Ok(Prepared::ResetOnly)
            } else {
                Err(CheckSameError::NoFiles)
            }
        } else {
            let check = CheckSame::from_entries(entries);
            let plan = Plan {
                ensure_cache_dir: reset || cache,
                reset_records: reset,
                compare_cache: cache,
            };
            Ok(Prepared::Run(check, plan))
        }
    }
}

/// The cumulative digest and the cache key depend only on which entries are
/// present, not on the order they arrive in: any two arrangements of the
/// same entries yield the same digest and the same key.
pub proof fn lemma_order_independent(a: Seq<EntryV>, b: Seq<EntryV>)
    requires
        a.to_multiset() == b.to_multiset(),
    ensures
        cumulative_of(a) == cumulative_of(b),
        cache_key_of(a) == cache_key_of(b),
{
    lemma_entry_le_total_ordering();
    a.lemma_sort_by_ensures(entry_order());
    b.lemma_sort_by_ensures(entry_order());
    lemma_sorted_unique(a.sort_by(entry_order()), b.sort_by(entry_order()), entry_order());
    assert(sorted_entries(a) == sorted_entries(b));
}

} // verus!
