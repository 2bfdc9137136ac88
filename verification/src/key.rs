//! The cache key: a 64-bit identifier for a path set, derived from the sorted
//! path strings alone, and its decimal rendering used to name the record file.

use std::hash::Hasher;
use vstd::prelude::*;
use crate::digest::hex_char;
use crate::digest::hex_digit;
use crate::entry::PathEntry;

verus! {

/// First fixed key the path hasher is created with.
pub const KEY_A: u128 = 1319;

/// Second fixed key the path hasher is created with.
pub const KEY_B: u128 = 2371;

/// What the path hasher finishes to after writing each path's bytes in order:
/// a function of the two keys and the path byte strings alone.
pub uninterp spec fn key_hash(key_a: u128, key_b: u128, paths: Seq<Seq<u8>>) -> u64;

/// Relies on ahash::AHasher::new_with_keys and std's Hasher::write and
/// Hasher::finish: a hasher built from explicit keys is deterministic, so the
/// finished value depends only on the keys and the byte strings written.
#[verifier::external_body]
pub(crate) fn ahash_paths(key_a: u128, key_b: u128, entries: &Vec<PathEntry>) -> (r: u64)
    ensures
        r == key_hash(key_a, key_b, entries@.map_values(|e: PathEntry| e.path@)),
{
    let mut h = ahash::AHasher::new_with_keys(key_a, key_b);
    for e in entries.iter() {
        h.write(&e.path);
    }
    h.finish()
}

/// The decimal rendering of a number, most significant digit first, with no
/// leading zero except for zero itself.
pub open spec fn dec_of(n: nat) -> Seq<char>
    decreases n,
{
    if n < 10 {
        seq![hex_char(n as u8)]
    } else {
        dec_of(n / 10).push(hex_char((n % 10) as u8))
    }
}

/// Renders a cache key as its decimal string, the name of its record file.
pub fn key_string(key: u64) -> (r: String)
    ensures
        r@ == dec_of(key as nat),
    decreases key,
{
    if key < 10 {
        let mut s = String::new();
        s.append(hex_digit(key as u8));
        proof {
            assert(s@ =~= dec_of(key as nat));
        }
        s
    } else {
        let mut s = key_string(key / 10);
        s.append(hex_digit((key % 10) as u8));
        proof {
            assert(s@ =~= dec_of(key as nat));
        }
        s
    }
}

} // verus!
