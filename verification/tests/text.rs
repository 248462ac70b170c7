use pybun::pathname::{append_to_path, join_path};
use pybun::audit::{normalize_severity, severity_level};
use pybun::build_cache::{BuildBackend, BuildBackendKind};

#[test]
fn join_path_like_pathbuf_push() {
    assert_eq!(join_path("/a", "b"), "/a/b");
    assert_eq!(join_path("/a/", "b"), "/a/b");
    assert_eq!(join_path("", "b"), "b");
    assert_eq!(join_path("/a", "/etc"), "/etc");
    assert_eq!(append_to_path("x.py", ".lock"), "x.py.lock");
}

#[test]
fn case_mapping_goes_through_std() {
    assert_eq!(severity_level("HiGh"), 3);
    assert_eq!(normalize_severity("cRiTiCaL"), "critical");
    let b = BuildBackend::from_build_system(Some("MATURIN".to_string()), vec![]);
    assert_eq!(b.kind, BuildBackendKind::Maturin);
}
