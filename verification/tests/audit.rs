use pybun::audit::{
    installed_packages_from, osv_query_body, extract_fix_version, extract_severity, normalize_severity, report_from_osv_response,
    severity_from_cvss_vector, severity_level, AuditReport, InstalledPackage, Vulnerability,
};
use pybun::json::Json;

fn s(v: &str) -> Json {
    Json::Str(v.to_string())
}

fn obj(members: Vec<(&str, Json)>) -> Json {
    Json::Object(members.into_iter().map(|(k, v)| (k.to_string(), v)).collect())
}

#[test]
fn severity_level_orders_known_levels() {
    assert_eq!(severity_level("none"), 0);
    assert_eq!(severity_level("low"), 1);
    assert_eq!(severity_level("medium"), 2);
    assert_eq!(severity_level("high"), 3);
    assert_eq!(severity_level("critical"), 4);
}

#[test]
fn severity_level_is_case_insensitive_and_defaults_unknown_to_low() {
    assert_eq!(severity_level("HIGH"), 3);
    assert_eq!(severity_level("totally-unknown"), 1);
}

#[test]
fn extract_severity_prefers_database_specific() {
    let vuln = obj(vec![("database_specific", obj(vec![("severity", s("HIGH"))]))]);
    assert_eq!(extract_severity(&vuln), "high");
}

#[test]
fn extract_severity_falls_back_to_cvss_vector() {
    let vuln = obj(vec![(
        "severity",
        Json::Array(vec![obj(vec![
            ("type", s("CVSS_V3")),
            ("score", s("CVSS:3.1/AV:N/AC:L/PR:N/UI:N/S:U/C:H/I:N/A:N")),
        ])]),
    )]);
    assert_eq!(extract_severity(&vuln), "high");
}

#[test]
fn extract_severity_defaults_to_low_when_no_data() {
    let vuln = obj(vec![]);
    assert_eq!(extract_severity(&vuln), "low");
}

#[test]
fn extract_fix_version_reads_affected_ranges() {
    let vuln = obj(vec![(
        "affected",
        Json::Array(vec![obj(vec![(
            "ranges",
            Json::Array(vec![obj(vec![(
                "events",
                Json::Array(vec![
                    obj(vec![("introduced", s("0"))]),
                    obj(vec![("fixed", s("2.31.0"))]),
                ]),
            )])]),
        )])]),
    )]);
    assert_eq!(extract_fix_version(&vuln), Some("2.31.0".to_string()));
}

#[test]
fn extract_fix_version_falls_back_to_database_specific() {
    let vuln = obj(vec![(
        "database_specific",
        obj(vec![("fix_versions", Json::Array(vec![s("1.2.3")]))]),
    )]);
    assert_eq!(extract_fix_version(&vuln), Some("1.2.3".to_string()));
}

#[test]
fn extract_fix_version_returns_none_when_absent() {
    let vuln = obj(vec![]);
    assert_eq!(extract_fix_version(&vuln), None);
}

fn vulnerability(package: &str, id: &str, severity: &str) -> Vulnerability {
    Vulnerability {
        package: package.into(),
        installed_version: "1".into(),
        vulnerability_id: id.into(),
        severity: severity.into(),
        description: String::new(),
        fix_version: None,
    }
}

#[test]
fn count_at_severity_counts_matching_entries() {
    let report = AuditReport {
        scanned: 2,
        unscanned: 0,
        vulnerabilities: vec![vulnerability("a", "V1", "high"), vulnerability("b", "V2", "low")],
    };
    assert_eq!(report.count_at_severity("high"), 1);
    assert_eq!(report.count_at_severity("low"), 1);
    assert_eq!(report.count_at_severity("critical"), 0);
    assert_eq!(report.highest_severity_level(), Some(3));
}

#[test]
fn highest_severity_level_of_report() {
    let report = AuditReport {
        scanned: 2,
        unscanned: 0,
        vulnerabilities: vec![vulnerability("a", "V1", "medium"), vulnerability("b", "V2", "critical")],
    };
    assert_eq!(report.highest_severity_level(), Some(4));
    let empty = AuditReport { scanned: 0, unscanned: 0, vulnerabilities: vec![] };
    assert_eq!(empty.highest_severity_level(), None);
}

#[test]
fn normalize_severity_maps_database_names() {
    assert_eq!(normalize_severity("CRITICAL"), "critical");
    assert_eq!(normalize_severity("high"), "high");
    assert_eq!(normalize_severity("MODERATE"), "medium");
    assert_eq!(normalize_severity("Medium"), "medium");
    assert_eq!(normalize_severity("whatever"), "low");
}

#[test]
fn cvss_vector_critical_when_scope_changes_without_privileges() {
    assert_eq!(
        severity_from_cvss_vector("CVSS:3.1/AV:N/AC:L/PR:N/UI:N/S:C/C:H/I:H/A:H"),
        Some("critical".to_string())
    );
}

#[test]
fn cvss_vector_high_on_high_impact() {
    assert_eq!(
        severity_from_cvss_vector("CVSS:3.1/AV:N/AC:L/PR:L/UI:R/S:U/C:N/I:H/A:N"),
        Some("high".to_string())
    );
}

#[test]
fn cvss_vector_without_version_prefix_is_not_read() {
    assert_eq!(severity_from_cvss_vector("AV:N/AC:L/PR:N/UI:N/S:U/C:H/I:N/A:N"), None);
}

#[test]
fn scan_report_for_no_packages_is_empty() {
    let report = report_from_osv_response(&vec![], &obj(vec![]), "low");
    assert_eq!(report.scanned, 0);
    assert_eq!(report.unscanned, 0);
    assert!(report.vulnerabilities.is_empty());
}

#[test]
fn scan_report_keeps_advisories_at_or_above_threshold() {
    let packages = vec![
        InstalledPackage { name: "requests".into(), version: "2.0.0".into() },
        InstalledPackage { name: "flask".into(), version: "1.0".into() },
        InstalledPackage { name: "left-out".into(), version: "0.1".into() },
    ];
    let high = obj(vec![
        ("id", s("GHSA-1")),
        ("summary", s("bad thing")),
        ("database_specific", obj(vec![("severity", s("HIGH"))])),
        (
            "affected",
            Json::Array(vec![obj(vec![(
                "ranges",
                Json::Array(vec![obj(vec![(
                    "events",
                    Json::Array(vec![obj(vec![("fixed", s("2.31.0"))])]),
                )])]),
            )])]),
        ),
    ]);
    let low = obj(vec![
        ("id", s("GHSA-2")),
        ("database_specific", obj(vec![("severity", s("LOW"))])),
    ]);
    let osv = obj(vec![(
        "results",
        Json::Array(vec![
            obj(vec![("vulns", Json::Array(vec![high, low]))]),
            obj(vec![]),
        ]),
    )]);
    let report = report_from_osv_response(&packages, &osv, "medium");
    assert_eq!(report.scanned, 3);
    assert_eq!(report.unscanned, 1);
    assert_eq!(report.vulnerabilities.len(), 1);
    let v = &report.vulnerabilities[0];
    assert_eq!(v.package, "requests");
    assert_eq!(v.installed_version, "2.0.0");
    assert_eq!(v.vulnerability_id, "GHSA-1");
    assert_eq!(v.severity, "high");
    assert_eq!(v.fix_version, Some("2.31.0".to_string()));
}

#[test]
fn cvss_vector_without_impact_is_medium() {
    assert_eq!(
        severity_from_cvss_vector("CVSS:3.1/AV:N/AC:L/PR:N/UI:N/S:U/C:N/I:N/A:N"),
        Some("medium".to_string())
    );
}

#[test]
fn cvss_vector_with_low_impact_is_low() {
    assert_eq!(
        severity_from_cvss_vector("CVSS:3.1/AV:N/AC:L/PR:N/UI:N/S:U/C:L/I:N/A:N"),
        Some("low".to_string())
    );
}

#[test]
fn installed_packages_from_pip_list() {
    let doc = Json::Array(vec![
        obj(vec![("name", s("requests")), ("version", s("2.31.0"))]),
        obj(vec![("name", s("odd"))]),
    ]);
    let pkgs = installed_packages_from(&doc);
    assert_eq!(pkgs.len(), 2);
    assert_eq!(pkgs[0].name, "requests");
    assert_eq!(pkgs[0].version, "2.31.0");
    assert_eq!(pkgs[1].name, "odd");
    assert_eq!(pkgs[1].version, "");
    assert!(installed_packages_from(&obj(vec![])).is_empty());
}

#[test]
fn osv_query_body_lists_one_query_per_package() {
    let pkgs = vec![InstalledPackage { name: "flask".into(), version: "1.0".into() }];
    let body = osv_query_body(&pkgs);
    let Json::Object(members) = body else { panic!("expected an object") };
    assert_eq!(members[0].0, "queries");
    let Json::Array(qs) = &members[0].1 else { panic!("expected an array") };
    assert_eq!(qs.len(), 1);
    let Json::Object(q) = &qs[0] else { panic!("expected an object") };
    assert_eq!(q[0].0, "version");
    assert!(matches!(&q[0].1, Json::Str(v) if v == "1.0"));
    assert_eq!(q[1].0, "package");
    let Json::Object(p) = &q[1].1 else { panic!("expected an object") };
    assert!(matches!(&p[0].1, Json::Str(v) if v == "flask"));
    assert!(matches!(&p[1].1, Json::Str(v) if v == "PyPI"));
}

#[test]
fn severity_ignores_ascii_case() {
    assert_eq!(severity_level("CrItIcAl"), severity_level("critical"));
    assert_eq!(severity_level("MEDIUM"), 2);
    assert_eq!(normalize_severity("moderate"), normalize_severity("MODERATE"));
}

#[test]
fn osv_url_defaults_and_overrides() {
    assert_eq!(pybun::audit::default_osv_url(None), "https://api.osv.dev/v1/querybatch");
    assert_eq!(pybun::audit::default_osv_url(Some("http://localhost:9/q")), "http://localhost:9/q");
}
