use pybun::build_cache::{compute_cache_key, is_ignored_dir, BuildBackend, BuildBackendKind, BuildCache, BuildInput};

#[test]
fn backend_kind_from_name() {
    let b = BuildBackend::from_build_system(Some("maturin".to_string()), vec!["maturin>=1".to_string()]);
    assert_eq!(b.kind, BuildBackendKind::Maturin);
    assert!(b.isolated);
    assert_eq!(b.build_requires, vec!["maturin>=1".to_string()]);
    let b = BuildBackend::from_build_system(Some("Scikit_Build_Core.build".to_string()), vec![]);
    assert_eq!(b.kind, BuildBackendKind::ScikitBuild);
    let b = BuildBackend::from_build_system(None, vec![]);
    assert_eq!(b.name, "setuptools.build_meta");
    assert_eq!(b.kind, BuildBackendKind::Setuptools);
    let b = BuildBackend::from_build_system(Some("hatchling.build".to_string()), vec![]);
    assert_eq!(b.kind, BuildBackendKind::Unknown);
    assert!(!b.isolated);
    assert_eq!(b.kind.as_str(), "unknown");
}

#[test]
fn env_overrides_per_kind() {
    let b = BuildBackend::from_build_system(Some("maturin".to_string()), vec![]);
    let env = b.env_overrides("/cache/build/k");
    assert_eq!(env.len(), 7);
    assert_eq!(env[4], ("PYBUN_BUILD_BACKEND".to_string(), "maturin".to_string()));
    assert_eq!(env[5], ("PYBUN_BUILD_CACHE_DIR".to_string(), "/cache/build/k".to_string()));
    assert_eq!(env[6], ("CARGO_TARGET_DIR".to_string(), "/cache/build/k/cargo".to_string()));
    let b = BuildBackend::from_build_system(None, vec![]);
    assert_eq!(b.env_overrides("/c").len(), 6);
}

#[test]
fn ignored_directories() {
    assert!(is_ignored_dir(".git"));
    assert!(is_ignored_dir("__pycache__"));
    assert!(is_ignored_dir("node_modules"));
    assert!(!is_ignored_dir("src"));
}

#[test]
fn cache_key_changes_with_input_contents() {
    let backend = BuildBackend::from_build_system(Some("setuptools.build_meta".to_string()), vec![]);
    let one = vec![BuildInput { relative_path: "module.c".to_string(), contents: b"int demo() { return 1; }".to_vec() }];
    let two = vec![BuildInput { relative_path: "module.c".to_string(), contents: b"int demo() { return 2; }".to_vec() }];
    let k1 = compute_cache_key(&backend, "python", &one);
    let k2 = compute_cache_key(&backend, "python", &two);
    assert_eq!(k1.len(), 64);
    assert_ne!(k1, k2);
    assert_eq!(k1, compute_cache_key(&backend, "python", &one));
}

#[test]
fn cache_key_of_known_material() {
    // SHA-256("setuptools.build_meta|setuptools|python")
    let backend = BuildBackend::from_build_system(None, vec![]);
    let key = compute_cache_key(&backend, "python", &[]);
    assert_eq!(key, "03176a541f2ce54216b936c643d2706e4916a77d2d25d103569b5ec63629844c");
}

#[test]
fn build_cache_dirs() {
    let cache = BuildCache::with_root("/c/build".to_string());
    assert_eq!(cache.root(), "/c/build");
    assert_eq!(cache.cache_dir_for_key("abc"), "/c/build/abc");
}
