//! Tests for the cache: keys, paths, statistics and sizes.

use lob::cache::{Cache, CacheStats, Entry};

fn test_cache() -> Cache {
    Cache::with_dir("/tmp/lob_test_cache/1".to_string())
}

#[test]
fn hash_consistency() {
    let cache = test_cache();
    let source = "let x = 42;";
    let hash1 = cache.hash_source(source);
    let hash2 = cache.hash_source(source);
    assert_eq!(hash1, hash2);
}

#[test]
fn hash_uniqueness() {
    let cache = test_cache();
    let hash1 = cache.hash_source("let x = 1;");
    let hash2 = cache.hash_source("let x = 2;");
    assert_ne!(hash1, hash2);
}

#[test]
fn hash_is_sha256_in_hex() {
    let cache = test_cache();
    assert_eq!(
        cache.hash_source(""),
        "e3b0c44298fc1c149afbf4c8996fb92427ae41e4649b934ca495991b7852b855"
    );
    assert_eq!(
        cache.hash_source("abc"),
        "ba7816bf8f01cfea414140de5dae2223b00361a396177a9cb410ff61f20015ad"
    );
}

#[test]
fn hash_many_small_sources_differ_pairwise() {
    let cache = test_cache();
    let mut keys: Vec<String> = Vec::new();
    for i in 0..200 {
        keys.push(cache.hash_source(&format!("let x = {};", i)));
    }
    for i in 0..keys.len() {
        assert_eq!(keys[i].len(), 64);
        assert!(keys[i].chars().all(|c| c.is_ascii_digit() || ('a'..='f').contains(&c)));
        for j in (i + 1)..keys.len() {
            assert_ne!(keys[i], keys[j]);
        }
    }
}

#[test]
fn new_is_below_the_platform_cache() {
    let cache = Cache::new(Some("/home/u/.cache")).unwrap();
    assert_eq!(cache.cache_dir(), "/home/u/.cache/lob");
}

#[test]
fn new_without_platform_cache_fails() {
    let error = Cache::new(None).unwrap_err();
    assert_eq!(error.message(), "Cache error: No cache directory found");
}

#[test]
fn cache_dir_returns_path() {
    let cache = test_cache();
    let dir = cache.cache_dir();
    assert!(dir.contains("lob"));
}

#[test]
fn get_binary_cache_miss() {
    let cache = test_cache();
    let result = cache.get_binary("nonexistent_hash_12345", false);
    assert!(result.is_none());
}

#[test]
fn get_binary_cache_hit() {
    let cache = test_cache();
    let hash = "test_hash_binary_unique_xyz";
    let binary_path = cache.binary_path(hash);

    let result = cache.get_binary(hash, true);
    assert!(result.is_some());
    assert_eq!(result.unwrap(), binary_path);
}

#[test]
fn binary_path() {
    let cache = test_cache();
    let hash = "test_hash";
    let path = cache.binary_path(hash);

    assert!(path.contains("binaries"));
    assert!(path.contains(hash));
    assert_eq!(path, "/tmp/lob_test_cache/1/binaries/test_hash");
}

#[test]
fn source_path_has_the_extension() {
    let cache = test_cache();
    assert_eq!(
        cache.source_path("test_source_hash"),
        "/tmp/lob_test_cache/1/sources/test_source_hash.rs"
    );
    assert_eq!(cache.sources_dir(), "/tmp/lob_test_cache/1/sources");
    assert_eq!(cache.binaries_dir(), "/tmp/lob_test_cache/1/binaries");
}

#[test]
fn cache_clear_cache() {
    let cache = test_cache();
    let binaries = "/tmp/lob_test_cache/1/binaries".to_string();
    let sources = "/tmp/lob_test_cache/1/sources".to_string();

    let plan = cache.clear(true, true);
    assert_eq!(plan.remove, vec![binaries.clone(), sources.clone()]);
    assert_eq!(plan.create, vec![binaries.clone(), sources.clone()]);

    let plan = cache.clear(false, true);
    assert_eq!(plan.remove, vec![sources.clone()]);
    assert_eq!(plan.create, vec![binaries.clone(), sources.clone()]);

    let plan = cache.clear(true, false);
    assert_eq!(plan.remove, vec![binaries.clone()]);
    assert_eq!(plan.create, vec![binaries.clone(), sources.clone()]);

    // What is left after clearing counts as nothing.
    let stats = cache.stats(&vec![]);
    assert_eq!(stats.binary_count, 0);
    assert_eq!(stats.total_size, 0);
}

#[test]
fn clear_cache_empty() {
    let cache = test_cache();
    let plan = cache.clear(false, false);
    assert!(plan.remove.is_empty());
    assert_eq!(plan.create.len(), 2);
}

#[test]
fn stats_empty_cache() {
    let cache = test_cache();
    let stats = cache.stats(&vec![]);
    assert_eq!(stats.binary_count, 0);
    assert_eq!(stats.total_size, 0);
    assert_eq!(stats.format_size(), "0 B");
}

#[test]
fn stats_with_binaries() {
    let cache = test_cache();
    let entries = vec![
        Entry { is_file: true, size: 11 },
        Entry { is_file: false, size: 4096 },
        Entry { is_file: true, size: 11 },
    ];
    let stats = cache.stats(&entries);
    assert_eq!(stats.binary_count, 2);
    assert_eq!(stats.total_size, 22);
}

#[test]
fn stats_total_stops_at_the_largest_number() {
    let cache = test_cache();
    let entries = vec![
        Entry { is_file: true, size: u64::MAX - 1 },
        Entry { is_file: true, size: 5 },
    ];
    let stats = cache.stats(&entries);
    assert_eq!(stats.binary_count, 2);
    assert_eq!(stats.total_size, u64::MAX);
}

#[test]
fn format_size_bytes() {
    let stats = CacheStats {
        binary_count: 1,
        total_size: 500,
    };
    assert_eq!(stats.format_size(), "500 B");
}

#[test]
fn format_size_kb() {
    let stats = CacheStats {
        binary_count: 10,
        total_size: 1024,
    };
    assert_eq!(stats.format_size(), "1.00 KB");
}

#[test]
fn format_size_mb() {
    let stats = CacheStats {
        binary_count: 10,
        total_size: 1024 * 1024,
    };
    assert_eq!(stats.format_size(), "1.00 MB");
}

#[test]
fn format_size_gb() {
    let stats = CacheStats {
        binary_count: 10,
        total_size: 1024 * 1024 * 1024,
    };
    assert_eq!(stats.format_size(), "1.00 GB");
}

#[test]
fn format_size_large_mb() {
    let stats = CacheStats {
        binary_count: 10,
        total_size: 500 * 1024 * 1024, // 500 MB
    };
    let formatted = stats.format_size();
    assert!(formatted.contains("MB"));
    assert!(formatted.contains("500"));
}

#[test]
fn format_size_rounds_to_the_nearest_hundredth() {
    let size = |total_size: u64| CacheStats { binary_count: 1, total_size }.format_size();
    assert_eq!(size(1023), "1023 B");
    assert_eq!(size(1536), "1.50 KB");
    assert_eq!(size(1029), "1.00 KB");
    assert_eq!(size(1030), "1.01 KB");
    assert_eq!(size(2 * 1024 * 1024 - 1), "2.00 MB");
    assert_eq!(size(5 * 1024 * 1024 * 1024 + 1024 * 1024 * 512), "5.50 GB");
    assert_eq!(size(u64::MAX), "17179869184.00 GB");
}

#[test]
fn format_size_agrees_with_floating_point() {
    let mut total_size: u64 = 1;
    for step in 0..400u64 {
        let stats = CacheStats { binary_count: 1, total_size };
        let expected = if total_size >= 1024 * 1024 * 1024 {
            format!("{:.2} GB", total_size as f64 / (1024.0 * 1024.0 * 1024.0))
        } else if total_size >= 1024 * 1024 {
            format!("{:.2} MB", total_size as f64 / (1024.0 * 1024.0))
        } else if total_size >= 1024 {
            format!("{:.2} KB", total_size as f64 / 1024.0)
        } else {
            format!("{} B", total_size)
        };
        assert_eq!(stats.format_size(), expected);
        total_size = total_size * 11 / 10 + 1 + step;
        if total_size > (1u64 << 50) {
            break;
        }
    }
}

#[test]
fn format_size_tie_goes_to_the_even_hundredth() {
    let size = |total_size: u64| CacheStats { binary_count: 1, total_size }.format_size();
    // 1152 / 1024 is 1.125 and 1408 / 1024 is 1.375, both exactly.
    assert_eq!(size(1152), "1.12 KB");
    assert_eq!(size(1408), "1.38 KB");
    assert_eq!(size(1152), format!("{:.2} KB", 1152.0 / 1024.0));
    assert_eq!(size(1408), format!("{:.2} KB", 1408.0 / 1024.0));
}
