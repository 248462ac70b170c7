use pybun::cache::gc::{lru_sort, GcAction, GcRun};
use pybun::cache::{format_size, parse_size, total_size, Cache, CacheEntry, CacheError};
use tempfile::tempdir;

fn root_of(dir: &tempfile::TempDir) -> String {
    dir.path().to_str().unwrap().to_string()
}

#[test]
fn cache_with_custom_root() {
    let temp = tempdir().unwrap();
    let cache = Cache::with_root(root_of(&temp));

    assert_eq!(cache.root(), temp.path().to_str().unwrap());
    assert_eq!(cache.packages_dir(), temp.path().join("packages").to_str().unwrap());
    assert_eq!(cache.envs_dir(), temp.path().join("envs").to_str().unwrap());
}

#[test]
fn wheel_path_layout() {
    let temp = tempdir().unwrap();
    let cache = Cache::with_root(root_of(&temp));

    let path = cache.wheel_path("requests", "2.31.0", "requests-2.31.0-py3-none-any.whl");
    assert_eq!(
        path,
        temp.path()
            .join("packages/requests/requests-2.31.0-py3-none-any.whl")
            .to_str()
            .unwrap()
    );
}

#[test]
fn has_wheel_returns_false_for_missing() {
    let temp = tempdir().unwrap();
    let cache = Cache::with_root(root_of(&temp));

    assert!(!cache.has_wheel("foo", "1.0.0", "foo-1.0.0-py3-none-any.whl"));
}

#[test]
fn cache_directories_sit_under_the_root() {
    let cache = Cache::with_root("/var/cache/pybun".to_string());
    assert_eq!(cache.build_dir(), "/var/cache/pybun/build");
    assert_eq!(cache.logs_dir(), "/var/cache/pybun/logs");
    assert_eq!(cache.pep723_envs_dir(), "/var/cache/pybun/pep723-envs");
    assert_eq!(cache.package_dir("numpy"), "/var/cache/pybun/packages/numpy");
}

#[test]
fn cache_root_prefers_pybun_home() {
    let cache = Cache::from_locations(Some("/opt/pybun".to_string()), Some("/home/u".to_string())).unwrap();
    assert_eq!(cache.root(), "/opt/pybun");
    let cache = Cache::from_locations(None, Some("/home/u".to_string())).unwrap();
    assert_eq!(cache.root(), "/home/u/.cache/pybun");
    let cache = Cache::from_locations(None, Some("/home/u/".to_string())).unwrap();
    assert_eq!(cache.root(), "/home/u/.cache/pybun");
    assert!(matches!(Cache::from_locations(None, None), Err(CacheError::NoHomeDir)));
}

#[test]
fn cache_new_uses_pybun_home_when_set() {
    let cache = Cache::new(Some("/srv/pybun".to_string())).unwrap();
    assert_eq!(cache.root(), "/srv/pybun");
}

#[test]
fn parse_size_various_formats() {
    assert_eq!(parse_size("100").unwrap(), 100);
    assert_eq!(parse_size("1K").unwrap(), 1024);
    assert_eq!(parse_size("1KB").unwrap(), 1024);
    assert_eq!(parse_size("1M").unwrap(), 1024 * 1024);
    assert_eq!(parse_size("1MB").unwrap(), 1024 * 1024);
    assert_eq!(parse_size("1G").unwrap(), 1024 * 1024 * 1024);
    assert_eq!(parse_size("1GB").unwrap(), 1024 * 1024 * 1024);
    assert_eq!(parse_size("10g").unwrap(), 10 * 1024 * 1024 * 1024);
}

#[test]
fn parse_size_invalid() {
    assert!(parse_size("invalid").is_err());
    assert!(parse_size("").is_err());
}

#[test]
fn parse_size_fractions_and_units() {
    assert_eq!(parse_size("1.5K").unwrap(), 1536);
    assert_eq!(parse_size("  2T ").unwrap(), 2 * 1024u64.pow(4));
    assert!(parse_size("0.5").is_err());
    assert_eq!(parse_size(".5K").unwrap(), 512);
    assert_eq!(parse_size("1b").unwrap(), 1);
    assert!(parse_size("1.2.3K").is_err());
    assert!(parse_size("K").is_err());
}

#[test]
fn format_size_various() {
    assert_eq!(format_size(100), "100 B");
    assert_eq!(format_size(1024), "1.00 KB");
    assert_eq!(format_size(1024 * 1024), "1.00 MB");
    assert_eq!(format_size(1024 * 1024 * 1024), "1.00 GB");
}

#[test]
fn format_size_rounds_like_float_formatting() {
    for bytes in [1023u64, 1152, 1536, 1100, 10 * 1024 + 5, 1024 * 1024 - 1, 3 * 1024 * 1024 * 1024 + 7, 5 * 1024u64.pow(4)] {
        let expected = if bytes >= 1024u64.pow(4) {
            format!("{:.2} TB", bytes as f64 / 1024f64.powi(4))
        } else if bytes >= 1024 * 1024 * 1024 {
            format!("{:.2} GB", bytes as f64 / 1024f64.powi(3))
        } else if bytes >= 1024 * 1024 {
            format!("{:.2} MB", bytes as f64 / 1024f64.powi(2))
        } else if bytes >= 1024 {
            format!("{:.2} KB", bytes as f64 / 1024f64)
        } else {
            format!("{} B", bytes)
        };
        assert_eq!(format_size(bytes), expected, "bytes = {bytes}");
    }
    assert_eq!(format_size(1152), "1.12 KB");
}

fn entry(path: &str, size: u64, accessed: i128) -> CacheEntry {
    CacheEntry { path: path.to_string(), size, accessed }
}

#[test]
fn total_size_adds_entry_sizes() {
    let entries = vec![entry("a", 10, 0), entry("b", 32, 1)];
    assert_eq!(total_size(&entries), 42);
    let cache = Cache::with_root("/c".to_string());
    assert_eq!(cache.total_size(&entries), 42);
}

#[test]
fn lru_sort_orders_oldest_first_and_keeps_ties_in_order() {
    let sorted = lru_sort(vec![entry("new", 1, 30), entry("old", 1, 10), entry("mid1", 1, 20), entry("mid2", 1, 20)]);
    let paths: Vec<&str> = sorted.iter().map(|e| e.path.as_str()).collect();
    assert_eq!(paths, vec!["old", "mid1", "mid2", "new"]);
}

#[test]
fn gc_run_on_no_entries_removes_nothing() {
    let mut run = GcRun::start(vec![], None, false);
    assert!(matches!(run.next_action(), GcAction::Finished));
    let result = run.finish();
    assert_eq!(result.freed_bytes, 0);
    assert_eq!(result.files_removed, 0);
}

#[test]
fn gc_run_removes_oldest_files_until_under_limit() {
    let entries = vec![entry("file2.whl", 1024, 200), entry("file1.whl", 1024, 100)];
    let mut run = GcRun::start(entries, Some(1024), false);
    let mut removed = Vec::new();
    loop {
        match run.next_action() {
            GcAction::Remove(path) => {
                removed.push(path);
                run.record_removal(true);
            }
            GcAction::Finished => break,
        }
    }
    let result = run.finish();
    assert_eq!(removed, vec!["file1.whl".to_string()]);
    assert_eq!(result.files_removed, 1);
    assert_eq!(result.freed_bytes, 1024);
    assert_eq!(result.size_before, 2048);
    assert_eq!(result.size_after, 1024);
}

#[test]
fn gc_run_skips_files_it_could_not_remove() {
    let entries = vec![entry("a", 100, 1), entry("b", 100, 2), entry("c", 100, 3)];
    let mut run = GcRun::start(entries, Some(100), false);
    let mut handed = Vec::new();
    loop {
        match run.next_action() {
            GcAction::Remove(path) => {
                let ok = path != "a";
                handed.push(path);
                run.record_removal(ok);
            }
            GcAction::Finished => break,
        }
    }
    let result = run.finish();
    assert_eq!(handed, vec!["a".to_string(), "b".to_string(), "c".to_string()]);
    assert_eq!(result.files_removed, 2);
    assert_eq!(result.freed_bytes, 200);
    assert_eq!(result.size_after, 100);
}

#[test]
fn gc_run_dry_run_lists_without_removing() {
    let entries = vec![entry("file.whl", 1024, 5)];
    let mut run = GcRun::start(entries, Some(0), true);
    assert!(matches!(run.next_action(), GcAction::Finished));
    let result = run.finish();
    assert_eq!(result.would_remove, vec!["file.whl".to_string()]);
    assert_eq!(result.files_removed, 0);
    assert_eq!(result.freed_bytes, 1024);
}

#[test]
fn plain_numbers_are_bytes() {
    for n in [0u64, 7, 12345, u64::MAX] {
        assert_eq!(parse_size(&n.to_string()).unwrap(), n);
    }
}

#[test]
fn gc_dry_run_within_limit_marks_shortest_prefix() {
    let entries = vec![entry("c", 300, 3), entry("a", 100, 1), entry("b", 200, 2)];
    let mut run = GcRun::start(entries, Some(300), true);
    assert!(matches!(run.next_action(), GcAction::Finished));
    let result = run.finish();
    assert_eq!(result.would_remove, vec!["a".to_string(), "b".to_string()]);
    assert_eq!(result.freed_bytes, 300);
    assert_eq!(result.size_after, 300);
    assert_eq!(result.files_removed, 0);
}

fn through_f64(num: &str, multiplier: u64) -> u64 {
    let n: f64 = num.parse().unwrap();
    (n * multiplier as f64) as u64
}

#[test]
fn decimal_sizes_are_read_as_f64() {
    assert_eq!(parse_size("0.99999999999999999999K").unwrap(), 1024);
    let cases: [(&str, &str, u64); 12] = [
        ("0.99999999999999999999", "K", 1024),
        ("0.1", "K", 1024),
        ("123.456", "M", 1024 * 1024),
        ("9007199254740993.5", "B", 1),
        ("4503599627370495.5", "B", 1),
        ("4503599627370494.5", "B", 1),
        ("18014398509481983.5", "B", 1),
        ("17179869183.9999999999", "G", 1024 * 1024 * 1024),
        ("99999999999999999999", "K", 1024),
        ("0.00000000000000000000000001", "T", 1024u64.pow(4)),
        ("18446744073709550591.9", "B", 1),
        ("1.000000000000000111022302462515654042363166809082031250000001", "B", 1),
    ];
    for (num, unit, multiplier) in cases {
        let text = format!("{num}{unit}");
        assert_eq!(parse_size(&text).unwrap(), through_f64(num, multiplier), "{text}");
    }
}
