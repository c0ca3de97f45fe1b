use catalog_validator::catalog::{CatalogEntry, CatalogJson};
use catalog_validator::reachability::{
    client_failure, probe_finding, reachability_findings, reachability_targets, ProbeOutcome,
    ProbeTarget,
};
use catalog_validator::rules::{check_entry, check_fields, has_https_scheme};
use catalog_validator::{
    is_valid_id, require_non_empty, validate_catalog, validate_catalog_with, Finding,
};

fn s(text: &str) -> String {
    text.to_string()
}

fn entry(id: &str, name: &str, version: &str, download_url: &str, signing_pubkey: &str) -> CatalogEntry {
    CatalogEntry {
        id: s(id),
        name: s(name),
        description: String::new(),
        author: String::new(),
        version: s(version),
        tags: Vec::new(),
        capabilities: Vec::new(),
        download_url: s(download_url),
        signing_pubkey: s(signing_pubkey),
        icon_url: None,
    }
}

fn good(id: &str) -> CatalogEntry {
    entry(id, "Name", "1.2.3", "https://example.com/p.aikpkg", "00ff")
}

fn lines(fs: &[Finding]) -> Vec<String> {
    fs.iter().map(|f| f.to_line()).collect()
}

#[test]
fn id_rule_accepts_exactly_the_charset() {
    assert!(is_valid_id("json-tool_2"));
    assert!(is_valid_id("A"));
    assert!(!is_valid_id(""));
    assert!(!is_valid_id("bad id!"));
    assert!(!is_valid_id("dot.id"));
    assert!(!is_valid_id("üml"));
}

#[test]
fn https_scheme_is_a_prefix_test() {
    assert!(has_https_scheme("https://x"));
    assert!(has_https_scheme("https://"));
    assert!(!has_https_scheme("https:/"));
    assert!(!has_https_scheme("http://x.com"));
    assert!(!has_https_scheme("HTTPS://x.com"));
    assert!(!has_https_scheme(" https://x.com"));
}

#[test]
fn require_non_empty_appends_only_for_empty_values() {
    let mut out = vec![Finding::BadId { id: s("q") }];
    require_non_empty("x", "value", "name", &mut out);
    assert_eq!(out.len(), 1);
    require_non_empty("x", "", "name", &mut out);
    assert_eq!(out.len(), 2);
    assert!(matches!(&out[1], Finding::EmptyField { id, field: "name" } if id == "x"));
}

#[test]
fn every_finding_renders_its_line() {
    let fs = vec![
        Finding::MalformedJson { detail: s("EOF while parsing") },
        Finding::SchemaVersion { got: 0 },
        Finding::SchemaVersion { got: 42 },
        Finding::SchemaVersion { got: 4294967295 },
        Finding::DuplicateId { id: s("d") },
        Finding::EmptyField { id: s("<missing>"), field: "id" },
        Finding::BadSemver { id: s("x"), version: s("1.0") },
        Finding::BadPubkey { id: s("x"), reason: s("not valid hex: zz") },
        Finding::BadId { id: s("a b") },
        Finding::BadUrl { id: s("x"), field: "icon_url", url: s("ftp://i") },
        Finding::Unreachable { id: s("x"), url: s("https://u"), status: s("404 Not Found") },
    ];
    assert_eq!(
        lines(&fs),
        vec![
            s("malformed json: EOF while parsing"),
            s("schema_version must be 1, got 0"),
            s("schema_version must be 1, got 42"),
            s("schema_version must be 1, got 4294967295"),
            s("[d] duplicate id"),
            s("[<missing>] empty required field: id"),
            s("[x] bad semver: 1.0"),
            s("[x] bad signing_pubkey: not valid hex: zz"),
            s("[a b] id must match [A-Za-z0-9_-]+"),
            s("[x] icon_url must be https://: ftp://i"),
            s("[x] unreachable: https://u (404 Not Found)"),
        ]
    );
    for l in lines(&fs) {
        assert!(!l.contains('\n'));
    }
}

#[test]
fn unreadable_document_gives_one_finding() {
    let fs = validate_catalog(Err(s("expected value at line 1 column 1"))).unwrap_err();
    assert_eq!(lines(&fs), vec![s("malformed json: expected value at line 1 column 1")]);
}

#[test]
fn empty_entry_reports_each_required_field_in_order() {
    let e = entry("", "", "", "", "");
    let fs = validate_catalog(Ok(CatalogJson { schema_version: 3, plugins: vec![e] })).unwrap_err();
    assert_eq!(
        lines(&fs),
        vec![
            s("schema_version must be 1, got 3"),
            s("[] empty required field: id"),
            s("[<missing>] empty required field: name"),
            s("[<missing>] empty required field: version"),
            s("[<missing>] empty required field: download_url"),
            s("[<missing>] empty required field: signing_pubkey"),
        ]
    );
}

#[test]
fn all_field_errors_of_one_entry_in_order() {
    let mut e = entry("x", "X", "1.0", "http://a", "xyz");
    e.icon_url = Some(s("ftp://i"));
    let fs = validate_catalog(Ok(CatalogJson { schema_version: 1, plugins: vec![e] })).unwrap_err();
    assert_eq!(
        lines(&fs),
        vec![
            s("[x] bad semver: 1.0"),
            s("[x] bad signing_pubkey: not valid hex: xyz"),
            s("[x] download_url must be https://: http://a"),
            s("[x] icon_url must be https://: ftp://i"),
        ]
    );
}

#[test]
fn empty_icon_url_and_absent_icon_url_pass() {
    let mut e = good("a");
    e.icon_url = Some(String::new());
    assert!(validate_catalog(Ok(CatalogJson { schema_version: 1, plugins: vec![e, good("b")] })).is_ok());
}

#[test]
fn duplicates_reported_from_the_second_occurrence_on() {
    let fs = validate_catalog(Ok(CatalogJson {
        schema_version: 1,
        plugins: vec![good("a"), good("b"), good("a"), good("a"), good("bad id")],
    }))
    .unwrap_err();
    assert_eq!(
        lines(&fs),
        vec![s("[a] duplicate id"), s("[a] duplicate id"), s("[bad id] id must match [A-Za-z0-9_-]+")]
    );
}

#[test]
fn malformed_ids_do_not_count_as_seen() {
    let fs = validate_catalog(Ok(CatalogJson {
        schema_version: 1,
        plugins: vec![good("b d"), good("b d"), good(""), good("")],
    }))
    .unwrap_err();
    assert_eq!(
        lines(&fs),
        vec![
            s("[b d] id must match [A-Za-z0-9_-]+"),
            s("[b d] id must match [A-Za-z0-9_-]+"),
            s("[] empty required field: id"),
            s("[] empty required field: id"),
        ]
    );
}

#[test]
fn semver_verdicts_are_taken_as_given() {
    let parsed = Ok(CatalogJson { schema_version: 1, plugins: vec![good("a"), good("b")] });
    let fs = validate_catalog_with(parsed, &vec![true, false]).unwrap_err();
    assert_eq!(lines(&fs), vec![s("[b] bad semver: 1.2.3")]);
    let parsed = Ok(CatalogJson { schema_version: 1, plugins: vec![entry("a", "A", "", "https://x", "00")] });
    let fs = validate_catalog_with(parsed, &vec![false]).unwrap_err();
    assert_eq!(lines(&fs), vec![s("[a] empty required field: version")]);
}

#[test]
fn semver_parser_verdicts() {
    for v in ["1.0.0", "0.1.2-alpha.1+build.5", "10.20.30"] {
        let r = validate_catalog(Ok(CatalogJson { schema_version: 1, plugins: vec![entry("a", "A", v, "https://x", "00")] }));
        assert!(r.is_ok(), "{v}");
    }
    for v in ["1.0", "01.0.0", "1.0.0-", "v1.0.0", "1.0.0 "] {
        let r = validate_catalog(Ok(CatalogJson { schema_version: 1, plugins: vec![entry("a", "A", v, "https://x", "00")] }));
        assert!(r.is_err(), "{v}");
    }
}

#[test]
fn hex_keys_of_both_cases_pass() {
    for k in ["ABCDEF", "abcdef", "0123456789aBcD"] {
        let r = validate_catalog(Ok(CatalogJson { schema_version: 1, plugins: vec![entry("a", "A", "1.0.0", "https://x", k)] }));
        assert!(r.is_ok(), "{k}");
    }
    for k in ["abcg", "a", "ab cd", "ää"] {
        let r = validate_catalog(Ok(CatalogJson { schema_version: 1, plugins: vec![entry("a", "A", "1.0.0", "https://x", k)] }));
        assert!(r.is_err(), "{k}");
    }
}

#[test]
fn display_only_fields_never_matter() {
    let mut e = good("a");
    e.description = String::new();
    e.author = String::new();
    e.tags = vec![s(""), s("anything at all")];
    e.capabilities = vec![s("not a real capability")];
    assert!(validate_catalog(Ok(CatalogJson { schema_version: 1, plugins: vec![e] })).is_ok());
}

#[test]
fn check_entry_tracks_seen_ids() {
    let mut seen: Vec<String> = Vec::new();
    let mut out: Vec<Finding> = Vec::new();
    check_entry(&good("a"), true, &mut seen, &mut out);
    assert!(out.is_empty());
    assert_eq!(seen, vec![s("a")]);
    check_entry(&good("a"), true, &mut seen, &mut out);
    assert_eq!(lines(&out), vec![s("[a] duplicate id")]);
    assert_eq!(seen, vec![s("a")]);
}

#[test]
fn check_fields_reports_under_the_given_id() {
    let mut out: Vec<Finding> = Vec::new();
    check_fields("<missing>", &entry("", "", "1.0.0", "https://x", "00"), true, &mut out);
    assert_eq!(lines(&out), vec![s("[<missing>] empty required field: name")]);
}

fn targets_of(plugins: Vec<CatalogEntry>) -> Vec<(String, String)> {
    reachability_targets(&Ok(CatalogJson { schema_version: 1, plugins }))
        .unwrap()
        .into_iter()
        .map(|t| (t.id, t.url))
        .collect()
}

#[test]
fn only_https_download_urls_are_probed() {
    let t = targets_of(vec![
        entry("a", "A", "1.0.0", "https://a/p", "00"),
        entry("b", "B", "1.0.0", "http://b/p", "00"),
        entry("", "C", "1.0.0", "https://c/p", "00"),
        entry("d", "D", "1.0.0", "", "00"),
    ]);
    assert_eq!(t, vec![(s("a"), s("https://a/p")), (s(""), s("https://c/p"))]);
}

#[test]
fn unreadable_document_is_not_probed() {
    assert!(reachability_targets(&Err(s("bad"))).is_none());
}

#[test]
fn probe_outcomes_become_findings() {
    let t = ProbeTarget { id: s("a"), url: s("https://a/p") };
    assert!(probe_finding(&t, &ProbeOutcome::Responded { success: true, status: s("200 OK") }).is_none());
    let f = probe_finding(&t, &ProbeOutcome::Responded { success: false, status: s("404 Not Found") }).unwrap();
    assert_eq!(f.to_line(), s("[a] unreachable: https://a/p (404 Not Found)"));
    let f = probe_finding(&t, &ProbeOutcome::Failed { error: s("timed out") }).unwrap();
    assert_eq!(f.to_line(), s("[a] unreachable: https://a/p (timed out)"));
}

#[test]
fn reachability_findings_keep_order() {
    let ts = vec![
        ProbeTarget { id: s("a"), url: s("https://a") },
        ProbeTarget { id: s("b"), url: s("https://b") },
        ProbeTarget { id: s("c"), url: s("https://c") },
    ];
    let os = vec![
        ProbeOutcome::Failed { error: s("dns") },
        ProbeOutcome::Responded { success: true, status: s("204 No Content") },
        ProbeOutcome::Responded { success: false, status: s("500 Internal Server Error") },
    ];
    assert_eq!(
        lines(&reachability_findings(&ts, &os)),
        vec![s("[a] unreachable: https://a (dns)"), s("[c] unreachable: https://c (500 Internal Server Error)")]
    );
}

#[test]
fn client_failure_is_reported_as_malformed() {
    assert_eq!(client_failure("tls").to_line(), s("malformed json: http client: tls"));
}
