//! End-to-end behaviour of the library on concrete values, with the cache
//! record simulated by a plain variable the way a caller would hold it.

use std::hash::Hasher;

use checksame::cache::{decide_status, Status};
use checksame::digest::{file_digest, Digest};
use checksame::entry::PathEntry;
use checksame::error::CheckSameError;
use checksame::hash::{CheckSame, Prepared};
use checksame::key::key_string;

fn entry(path: &str, content: &str) -> PathEntry {
    PathEntry::new(
        path.as_bytes().to_vec(),
        &Some(content.as_bytes().to_vec()),
    )
}

/// Runs one cache-mode invocation against a simulated record, returning what
/// was printed and leaving the record as the run must.
fn cached_run(entries: Vec<PathEntry>, record: &mut Option<Vec<u8>>) -> String {
    match CheckSame::new(entries, false, true) {
        Ok(Prepared::Run(check, plan)) => {
            assert!(plan.compare_cache);
            let done = check.with_status(record);
            *record = Some(done.hash.as_bytes().clone());
            done.render()
        }
        _ => panic!("a non-empty path list must prepare a run"),
    }
}

#[test]
fn order_of_entries_does_not_matter() {
    let a = CheckSame::from_entries(vec![entry("A", "hello"), entry("B", "world")]);
    let b = CheckSame::from_entries(vec![entry("B", "world"), entry("A", "hello")]);
    assert_eq!(a.key, b.key);
    assert_eq!(a.hash.as_bytes(), b.hash.as_bytes());
    assert_eq!(a.render(), b.render());
}

#[test]
fn content_change_changes_digest_not_key() {
    let a = CheckSame::from_entries(vec![entry("A", "hello"), entry("B", "world")]);
    let b = CheckSame::from_entries(vec![entry("A", "hello"), entry("B", "world!")]);
    assert_eq!(a.key, b.key);
    assert_ne!(a.hash.as_bytes(), b.hash.as_bytes());
}

#[test]
fn path_set_changes_key() {
    let a = CheckSame::from_entries(vec![entry("A", "hello")]);
    let b = CheckSame::from_entries(vec![entry("B", "hello")]);
    assert_ne!(a.key, b.key);
}

#[test]
fn fresh_key_reports_new_then_same() {
    let mut record: Option<Vec<u8>> = None;
    let first = cached_run(vec![entry("A", "hello"), entry("B", "world")], &mut record);
    assert_eq!(first, "-1");
    let again = cached_run(vec![entry("A", "hello"), entry("B", "world")], &mut record);
    assert_eq!(again, "0");
}

#[test]
fn edit_reports_changed_then_same() {
    let mut record: Option<Vec<u8>> = None;
    assert_eq!(
        cached_run(vec![entry("A", "hello"), entry("B", "world")], &mut record),
        "-1"
    );
    assert_eq!(
        cached_run(vec![entry("A", "hello"), entry("B", "world")], &mut record),
        "0"
    );
    assert_eq!(
        cached_run(vec![entry("A", "hello"), entry("B", "world!")], &mut record),
        "1"
    );
    assert_eq!(
        cached_run(vec![entry("A", "hello"), entry("B", "world!")], &mut record),
        "0"
    );
}

#[test]
fn record_left_behind_equals_digest() {
    let mut record: Option<Vec<u8>> = None;
    cached_run(vec![entry("A", "hello")], &mut record);
    let fresh = CheckSame::from_entries(vec![entry("A", "hello")]);
    assert_eq!(record.as_deref(), Some(fresh.hash.as_bytes().as_slice()));
}

#[test]
fn reset_forgets_known_keys() {
    let mut record: Option<Vec<u8>> = None;
    assert_eq!(cached_run(vec![entry("A", "hello")], &mut record), "-1");
    assert_eq!(cached_run(vec![entry("A", "hello")], &mut record), "0");
    // A reset deletes every record file; the cleared record makes the next
    // run with the previously known key report New again.
    record = None;
    assert_eq!(cached_run(vec![entry("A", "hello")], &mut record), "-1");
}

#[test]
fn empty_list_with_reset_is_silent_noop() {
    match CheckSame::new(Vec::new(), true, false) {
        Ok(Prepared::ResetOnly) => {}
        _ => panic!("an empty list with reset must only clear the records"),
    }
    match CheckSame::new(Vec::new(), true, true) {
        Ok(Prepared::ResetOnly) => {}
        _ => panic!("an empty list with reset must only clear the records"),
    }
}

#[test]
fn empty_list_without_reset_is_refused() {
    match CheckSame::new(Vec::new(), false, false) {
        Err(CheckSameError::NoFiles) => {}
        _ => panic!("an empty list without reset must be refused"),
    }
    match CheckSame::new(Vec::new(), false, true) {
        Err(CheckSameError::NoFiles) => {}
        _ => panic!("an empty list without reset must be refused"),
    }
}

#[test]
fn plan_follows_the_flags() {
    for (reset, cache) in [(false, false), (false, true), (true, false), (true, true)] {
        match CheckSame::new(vec![entry("A", "hello")], reset, cache) {
            Ok(Prepared::Run(check, plan)) => {
                assert_eq!(check.status, Status::Noop);
                assert_eq!(plan.ensure_cache_dir, reset || cache);
                assert_eq!(plan.reset_records, reset);
                assert_eq!(plan.compare_cache, cache);
            }
            _ => panic!("a non-empty path list must prepare a run"),
        }
    }
}

#[test]
fn without_cache_the_hex_digest_is_printed() {
    let run = CheckSame::from_entries(vec![entry("A", "hello")]);
    let shown = run.render();
    assert_eq!(shown.len(), 64);
    assert_eq!(shown, run.hash.to_hex());
    assert!(shown.chars().all(|c| c.is_ascii_hexdigit() && !c.is_ascii_uppercase()));
}

#[test]
fn status_strings_match_the_statuses() {
    let run = CheckSame::from_entries(vec![entry("A", "hello")]);
    let bytes = run.hash.as_bytes().clone();
    let new = CheckSame::from_entries(vec![entry("A", "hello")]).with_status(&None);
    assert_eq!(new.status, Status::New);
    assert_eq!(new.render(), "-1");
    let same = CheckSame::from_entries(vec![entry("A", "hello")]).with_status(&Some(bytes));
    assert_eq!(same.status, Status::Same);
    assert_eq!(same.render(), "0");
    let changed =
        CheckSame::from_entries(vec![entry("A", "hello")]).with_status(&Some(vec![0u8; 32]));
    assert_eq!(changed.status, Status::Changed);
    assert_eq!(changed.render(), "1");
}

#[test]
fn with_status_keeps_key_and_digest() {
    let before = CheckSame::from_entries(vec![entry("A", "hello")]);
    let key = before.key;
    let bytes = before.hash.as_bytes().clone();
    let after = before.with_status(&None);
    assert_eq!(after.key, key);
    assert_eq!(after.hash.as_bytes(), &bytes);
}

#[test]
fn decide_status_on_each_case() {
    let digest = file_digest(&Some(b"hello".to_vec()));
    assert_eq!(decide_status(&None, &digest), Status::New);
    assert_eq!(
        decide_status(&Some(digest.as_bytes().clone()), &digest),
        Status::Same
    );
    assert_eq!(decide_status(&Some(vec![1u8, 2, 3]), &digest), Status::Changed);
}

#[test]
fn unreadable_file_gets_the_sentinel_digest() {
    let missing = file_digest(&None);
    assert_eq!(missing.to_hex(), "30".repeat(32));
    assert_eq!(missing.as_bytes().as_slice(), &[b'0'; 32]);
}

#[test]
fn unreadable_file_degrades_the_aggregate() {
    let readable = CheckSame::from_entries(vec![entry("A", "hello"), entry("B", "world")]);
    let degraded = CheckSame::from_entries(vec![
        entry("A", "hello"),
        PathEntry::new(b"B".to_vec(), &None),
    ]);
    // The path set is unchanged, so the key is too; the content differs.
    assert_eq!(readable.key, degraded.key);
    assert_ne!(readable.hash.as_bytes(), degraded.hash.as_bytes());
}

#[test]
fn file_digest_matches_blake3() {
    let ours = file_digest(&Some(b"hello".to_vec()));
    let theirs = blake3::hash(b"hello");
    assert_eq!(ours.as_bytes().as_slice(), theirs.as_bytes());
    let empty = file_digest(&Some(Vec::new()));
    assert_eq!(
        empty.to_hex(),
        "af1349b9f5f9a1a6a0404dea36dcc9499bcb25c9adc112b7cc9a93cae41f3262"
    );
}

#[test]
fn cumulative_digest_hashes_the_sorted_digests() {
    let run = CheckSame::from_entries(vec![entry("B", "world"), entry("A", "hello")]);
    let mut concatenated = Vec::new();
    concatenated.extend_from_slice(blake3::hash(b"hello").as_bytes());
    concatenated.extend_from_slice(blake3::hash(b"world").as_bytes());
    let expected = blake3::hash(&concatenated);
    assert_eq!(run.hash.as_bytes().as_slice(), expected.as_bytes());
}

#[test]
fn cache_key_matches_the_path_hasher() {
    let run = CheckSame::from_entries(vec![entry("B", "world"), entry("A", "hello")]);
    let mut hasher = ahash::AHasher::new_with_keys(1319, 2371);
    hasher.write(b"A");
    hasher.write(b"B");
    assert_eq!(run.key, hasher.finish());
}

#[test]
fn digest_wraps_exactly_32_bytes() {
    let bytes: Vec<u8> = (0u8..32).collect();
    let digest = Digest::from_bytes(bytes).expect("32 bytes make a digest");
    assert_eq!(
        digest.to_hex(),
        "000102030405060708090a0b0c0d0e0f101112131415161718191a1b1c1d1e1f"
    );
    assert!(Digest::from_bytes(vec![0u8; 31]).is_none());
    assert!(Digest::from_bytes(vec![0u8; 33]).is_none());
}

#[test]
fn keys_render_in_decimal() {
    assert_eq!(key_string(0), "0");
    assert_eq!(key_string(7), "7");
    assert_eq!(key_string(10), "10");
    assert_eq!(key_string(1319), "1319");
    assert_eq!(key_string(u64::MAX), "18446744073709551615");
}

#[test]
fn error_messages_are_exact() {
    assert_eq!(
        CheckSameError::NoFiles.as_str(),
        "At least one file path is required."
    );
    assert_eq!(CheckSameError::ResetFailed.as_str(), "Unable to reset the cache.");
    assert_eq!(
        CheckSameError::CacheDirUnavailable.as_str(),
        "Unable to create a temporary cache directory."
    );
    assert_eq!(CheckSameError::WriteFailed.as_str(), "Unable to update the cache.");
}
