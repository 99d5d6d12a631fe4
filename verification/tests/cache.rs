use rust_guardian::bindings::Timestamp;
use rust_guardian::cache::{
    calculate_file_hash, current_timestamp, seconds_of, CacheData, CacheMetadata, CachedFile,
    FileEntry, FirstCheck,
};
use rust_guardian::FileCache;

fn loaded() -> FileCache {
    let mut cache = FileCache::new(".rust/guardian_cache.json");
    cache.load_at(None, 100).unwrap();
    cache
}

#[test]
fn digests_are_sha256_in_hexadecimal() {
    assert_eq!(
        calculate_file_hash(b"abc"),
        "ba7816bf8f01cfea414140de5dae2223b00361a396177a9cb410ff61f20015ad"
    );
    assert_eq!(
        calculate_file_hash(b""),
        "e3b0c44298fc1c149afbf4c8996fb92427ae41e4649b934ca495991b7852b855"
    );
}

#[test]
fn an_unchanged_file_hits_and_a_changed_one_misses() {
    let mut cache = loaded();
    let content = b"fn main() {}";
    // No entry: a miss.
    assert!(cache.needs_analysis("src/main.rs", "fp", 12, 50, content).unwrap());
    assert_eq!((cache.data.metadata.hits, cache.data.metadata.misses), (0, 1));
    cache.record_entry("src/main.rs", 3, "fp", 12, 50, content, 60).unwrap();
    // Unchanged file and fingerprint: a hit, and only the hits grow.
    assert!(!cache.needs_analysis("src/main.rs", "fp", 12, 50, content).unwrap());
    assert_eq!((cache.data.metadata.hits, cache.data.metadata.misses), (1, 1));
    assert!(!cache.needs_analysis("src/main.rs", "fp", 12, 50, content).unwrap());
    assert_eq!((cache.data.metadata.hits, cache.data.metadata.misses), (2, 1));
    // Same size and time, other content.
    assert!(cache.needs_analysis("src/main.rs", "fp", 12, 50, b"fn main() {;").unwrap());
    // Other size, other time, other fingerprint.
    assert!(cache.needs_analysis("src/main.rs", "fp", 13, 50, content).unwrap());
    assert!(cache.needs_analysis("src/main.rs", "fp", 12, 51, content).unwrap());
    assert!(cache.needs_analysis("src/main.rs", "other", 12, 50, content).unwrap());
    // Another path.
    assert!(cache.needs_analysis("src/lib.rs", "fp", 12, 50, content).unwrap());
    assert_eq!((cache.data.metadata.hits, cache.data.metadata.misses), (2, 6));
    assert!(cache.dirty);
}

#[test]
fn counters_grow_and_the_rate_stays_in_range() {
    let mut cache = loaded();
    let mut last = 0;
    for i in 0..10u64 {
        let size = if i % 3 == 0 { 1 } else { 2 };
        cache.needs_analysis("a", "fp", size, 0, b"x").unwrap();
        cache.record_entry("a", 0, "fp", 1, 0, b"x", i).unwrap();
        let s = cache.statistics();
        assert!(s.cache_hits + s.cache_misses > last);
        last = s.cache_hits + s.cache_misses;
        assert!(s.hit_rate_per_mille() <= 1000);
    }
    let s = cache.statistics();
    assert_eq!((s.cache_hits, s.cache_misses, s.total_files), (3, 7, 1));
    assert_eq!(s.hit_rate_per_mille(), 300);
    assert_eq!((s.created_at, s.updated_at), (100, 100));
    assert_eq!(loaded().statistics().hit_rate_per_mille(), 0);
}

#[test]
fn a_full_counter_fails_the_check_and_keeps_the_cache() {
    let mut cache = loaded();
    cache.data.metadata.misses = u64::MAX;
    cache.dirty = false;
    let r = cache.needs_analysis("a", "fp", 1, 1, b"x");
    assert!(r.is_err());
    assert_eq!(cache.data.metadata.misses, u64::MAX);
    assert!(!cache.dirty);
}

#[test]
fn entries_are_replaced_not_repeated() {
    let mut cache = loaded();
    cache.record_entry("a", 1, "fp", 1, 1, b"x", 5).unwrap();
    cache.record_entry("b", 2, "fp", 1, 1, b"y", 6).unwrap();
    cache.record_entry("a", 7, "fp2", 9, 8, b"z", 7).unwrap();
    assert_eq!(cache.cached_paths(), vec!["a", "b"]);
    let a: &FileEntry = &cache.data.files[0].entry;
    assert_eq!((a.violation_count, a.size, a.modified_at, a.analyzed_at), (7, 9, 8, 7));
    assert_eq!(a.config_fingerprint, "fp2");
    assert_eq!(a.content_hash, calculate_file_hash(b"z"));
    cache.update_entry("c", 0, "fp", 1, 1, b"w").unwrap();
    assert_eq!(cache.cached_paths(), vec!["a", "b", "c"]);
}

#[test]
fn cleanup_drops_missing_files_and_keeps_the_counts() {
    let mut cache = loaded();
    for path in ["a", "b", "c", "d"] {
        cache.record_entry(path, 0, "fp", 1, 1, b"x", 5).unwrap();
    }
    cache.needs_analysis("a", "fp", 1, 1, b"x").unwrap();
    cache.save_at(200).unwrap();
    assert!(!cache.dirty);
    assert_eq!(cache.cleanup(&vec![true, false, true]).unwrap(), 1);
    assert_eq!(cache.cached_paths(), vec!["a", "c", "d"]);
    assert!(cache.dirty);
    assert_eq!((cache.data.metadata.hits, cache.data.metadata.misses), (1, 0));
    cache.save_at(201).unwrap();
    assert_eq!(cache.cleanup(&vec![true, true, true]).unwrap(), 0);
    assert!(!cache.dirty);
}

#[test]
fn save_hands_out_a_snapshot_once() {
    let mut cache = FileCache::new("c.json");
    assert!(cache.save_at(1).unwrap().is_none());
    cache.dirty = true;
    match cache.save_at(1) {
        Err(e) => assert_eq!(
            e.to_text(),
            "Cache error: Cache version coherence violation - invalid version state"
        ),
        Ok(_) => panic!("a cache without a format version was saved"),
    }
    assert!(cache.dirty);
    let mut cache = loaded();
    cache.record_entry("a", 1, "fp", 1, 1, b"x", 5).unwrap();
    cache.set_config_fingerprint("fp".to_string());
    let snapshot: CacheData = cache.save_at(150).unwrap().unwrap();
    assert_eq!(snapshot.version, 1);
    assert_eq!(snapshot.config_fingerprint, Some("fp".to_string()));
    assert_eq!(snapshot.files.len(), 1);
    assert_eq!(snapshot.metadata.updated_at, 150);
    assert!(cache.save_at(160).unwrap().is_none());
    // The clock running backwards does not put the update before the creation.
    cache.dirty = true;
    assert_eq!(cache.save_at(10).unwrap().unwrap().metadata.updated_at, 100);
    assert!(cache.validate_cache_coherence().is_ok());
    // A snapshot can be loaded again.
    let mut again = FileCache::new("c.json");
    again.load_at(Some(snapshot), 999).unwrap();
    assert_eq!(again.cached_paths(), vec!["a"]);
    assert!(!again.dirty);
    assert!(!again.needs_analysis("a", "fp", 1, 1, b"x").unwrap());
}

#[test]
fn old_format_is_migrated() {
    let old = CacheData {
        version: 0,
        config_fingerprint: None,
        files: vec![CachedFile {
            path: "a".to_string(),
            entry: FileEntry {
                content_hash: "h".to_string(),
                size: 1,
                modified_at: 2,
                violation_count: 3,
                analyzed_at: 4,
                config_fingerprint: "fp".to_string(),
            },
        }],
        metadata: CacheMetadata { created_at: 9, updated_at: 5, hits: 1, misses: 2 },
    };
    let mut cache = FileCache::new("c.json");
    assert!(cache.verify_integrity_on_operation().is_err());
    cache.load_at(Some(old), 0).unwrap();
    assert_eq!(cache.data.version, 1);
    assert!(cache.dirty);
    assert!(cache.verify_integrity_on_operation().is_ok());
    assert!(cache.migrate_if_needed().is_ok());
    match cache.validate_cache_coherence() {
        Err(e) => assert_eq!(e.to_text(), "Cache error: Temporal coherence violation - cache timeline is inconsistent"),
        Ok(()) => panic!("coherent"),
    }
}

#[test]
fn clear_and_fingerprint() {
    let mut cache = loaded();
    cache.record_entry("a", 1, "fp", 1, 1, b"x", 5).unwrap();
    cache.needs_analysis("a", "fp", 1, 1, b"x").unwrap();
    cache.needs_analysis("b", "fp", 1, 1, b"x").unwrap();
    assert_eq!((cache.data.metadata.hits, cache.data.metadata.misses), (1, 1));
    cache.clear_at(300);
    assert!(cache.cached_paths().is_empty());
    // Clearing forgets the entries; the counters are never set back.
    assert_eq!((cache.data.metadata.hits, cache.data.metadata.misses), (1, 1));
    assert_eq!(cache.data.metadata.created_at, 100);
    assert_eq!(cache.data.metadata.updated_at, 300);
    assert_eq!(cache.data.version, 1);
    assert_eq!(cache.data.config_fingerprint, None);
    assert!(cache.dirty);
    assert!(cache.clear().is_ok());
    assert_eq!((cache.data.metadata.hits, cache.data.metadata.misses), (1, 1));
    assert_eq!(cache.statistics().total_files, 0);
    assert!(cache.validate_cache_coherence().is_ok());
    assert!(cache.save_at(300).unwrap().is_some());
    cache.save_at(301).unwrap();
    cache.set_config_fingerprint("fp".to_string());
    assert!(cache.dirty);
    cache.save_at(302).unwrap();
    cache.set_config_fingerprint("fp".to_string());
    assert!(!cache.dirty);
    cache.set_config_fingerprint("fp2".to_string());
    assert!(cache.dirty);
    assert_eq!(cache.cache_path, ".rust/guardian_cache.json");
}

#[test]
fn whole_seconds_of_a_point_in_time() {
    assert_eq!(seconds_of(Timestamp { secs: 1_700_000_000, nanos: 999_999_999 }), 1_700_000_000);
    assert_eq!(seconds_of(Timestamp { secs: 0, nanos: 5 }), 0);
    assert_eq!(seconds_of(Timestamp { secs: -1, nanos: 0 }), 0);
    assert_eq!(seconds_of(Timestamp { secs: i64::MIN, nanos: 0 }), 0);
    assert_eq!(seconds_of(Timestamp { secs: i64::MAX, nanos: 0 }), i64::MAX as u64);
    let now = current_timestamp();
    assert!(now > 1_600_000_000);
    assert!(now <= i64::MAX as u64);
}

#[test]
fn cheap_checks_come_before_the_content() {
    let mut cache = loaded();
    // No entry: a miss, settled without the content.
    assert_eq!(cache.first_check("a", "fp", 3, 7).unwrap(), FirstCheck::Miss);
    assert_eq!((cache.data.metadata.hits, cache.data.metadata.misses), (0, 1));
    cache.record_entry("a", 0, "fp", 3, 7, b"abc", 5).unwrap();
    // Another size, another time, another configuration: each a miss.
    assert_eq!(cache.first_check("a", "fp", 4, 7).unwrap(), FirstCheck::Miss);
    assert_eq!(cache.first_check("a", "fp", 3, 8).unwrap(), FirstCheck::Miss);
    assert_eq!(cache.first_check("a", "other", 3, 7).unwrap(), FirstCheck::Miss);
    assert_eq!((cache.data.metadata.hits, cache.data.metadata.misses), (0, 4));
    // Everything agrees: only the content can tell, and nothing is counted yet.
    cache.save_at(200).unwrap();
    assert_eq!(cache.first_check("a", "fp", 3, 7).unwrap(), FirstCheck::ContentNeeded);
    assert_eq!((cache.data.metadata.hits, cache.data.metadata.misses), (0, 4));
    assert!(!cache.dirty);
    assert!(!cache.needs_analysis("a", "fp", 3, 7, b"abc").unwrap());
    assert!(cache.needs_analysis("a", "fp", 3, 7, b"abd").unwrap());
    assert_eq!((cache.data.metadata.hits, cache.data.metadata.misses), (1, 5));
    // A miss that cannot be counted fails and leaves the cache as it was.
    cache.data.metadata.misses = u64::MAX;
    cache.save_at(201).unwrap();
    assert!(cache.first_check("zz", "fp", 1, 1).is_err());
    assert!(!cache.dirty);
    assert_eq!(cache.first_check("a", "fp", 3, 7).unwrap(), FirstCheck::ContentNeeded);
}

#[test]
fn a_snapshot_with_one_path_twice_keeps_one_entry() {
    let entry = |count: usize| FileEntry {
        content_hash: calculate_file_hash(b"x"),
        size: 1,
        modified_at: 1,
        violation_count: count,
        analyzed_at: 5,
        config_fingerprint: "fp".to_string(),
    };
    let snapshot = CacheData {
        version: 1,
        config_fingerprint: Some("fp".to_string()),
        files: vec![
            CachedFile { path: "a".to_string(), entry: entry(1) },
            CachedFile { path: "b".to_string(), entry: entry(2) },
            CachedFile { path: "a".to_string(), entry: entry(3) },
        ],
        metadata: CacheMetadata { created_at: 1, updated_at: 2, hits: 4, misses: 5 },
    };
    let mut cache = FileCache::new("c.json");
    cache.load_at(Some(snapshot), 50).unwrap();
    assert_eq!(cache.cached_paths(), vec!["a", "b"]);
    assert_eq!(cache.data.files[0].entry.violation_count, 3);
    assert_eq!(cache.statistics().total_files, 2);
    assert_eq!(cache.data.config_fingerprint, Some("fp".to_string()));
    assert_eq!(cache.data.version, 1);
    assert_eq!((cache.data.metadata.hits, cache.data.metadata.misses), (4, 5));
    assert!(!cache.dirty);
}
