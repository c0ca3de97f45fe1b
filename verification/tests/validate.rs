use catalog_validator::catalog::{CatalogEntry, CatalogJson};
use catalog_validator::{validate_catalog, Finding};

fn s(text: &str) -> String {
    text.to_string()
}

/// An entry as the document gives it, every other field absent.
fn entry(id: &str, name: &str, version: &str, download_url: &str, signing_pubkey: &str) -> CatalogEntry {
    CatalogEntry {
        id: s(id),
        name: s(name),
        description: String::new(),
        author: String::new(),
        version: s(version),
        tags: Vec::new(),
        capabilities: Vec::new(),
        download_url: s(download_url),
        signing_pubkey: s(signing_pubkey),
        icon_url: None,
    }
}

fn catalog(schema_version: u32, plugins: Vec<CatalogEntry>) -> Result<CatalogJson, String> {
    Ok(CatalogJson { schema_version, plugins })
}

/// Helper: collect findings from a read document.
fn findings(parsed: Result<CatalogJson, String>) -> Vec<Finding> {
    validate_catalog(parsed).err().unwrap_or_default()
}

#[test]
fn valid_empty_catalog_passes() {
    // {"schema_version":1,"plugins":[]}
    assert!(validate_catalog(catalog(1, vec![])).is_ok());
}

#[test]
fn valid_full_entry_passes() {
    let mut e = entry(
        "json-tool",
        "JSON Tool",
        "1.0.0",
        "https://github.com/x/json-tool/releases/download/v1.0.0/json-tool.aikpkg",
        "abcdef1234567890",
    );
    e.description = s("fmt");
    e.author = s("me");
    e.tags = vec![s("utility")];
    e.capabilities = vec![s("kv")];
    e.icon_url = Some(s("https://raw.githubusercontent.com/x/icon.png"));
    assert!(validate_catalog(catalog(1, vec![e])).is_ok());
}

#[test]
fn malformed_json_is_finding() {
    // "{not json" is not a catalog document: the reader's message comes through.
    let fs = findings(Err(s("key must be a string at line 1 column 2")));
    assert!(matches!(fs[0], Finding::MalformedJson { .. }));
}

#[test]
fn schema_version_not_1_is_finding() {
    let fs = findings(catalog(2, vec![]));
    assert!(matches!(fs[0], Finding::SchemaVersion { got: 2 }));
}

#[test]
fn missing_required_field_is_empty_field_finding() {
    // version absent → defaults to "" → EmptyField
    let fs = findings(catalog(1, vec![entry("x", "X", "", "https://x.com/x.aikpkg", "abcd")]));
    assert!(fs.iter().any(|f| matches!(f, Finding::EmptyField { field: "version", .. })));
}

#[test]
fn empty_name_is_finding() {
    let fs = findings(catalog(1, vec![entry("x", "", "1.0.0", "https://x.com/x.aikpkg", "abcd")]));
    assert!(fs.iter().any(|f| matches!(f, Finding::EmptyField { field: "name", .. })));
}

#[test]
fn bad_semver_is_finding() {
    let fs = findings(catalog(
        1,
        vec![entry("x", "X", "not-semver", "https://x.com/x.aikpkg", "abcd")],
    ));
    assert!(fs.iter().any(|f| matches!(f, Finding::BadSemver { version, .. } if version == "not-semver")));
}

#[test]
fn empty_pubkey_is_finding() {
    let fs = findings(catalog(1, vec![entry("x", "X", "1.0.0", "https://x.com/x.aikpkg", "")]));
    assert!(fs.iter().any(|f| matches!(f, Finding::EmptyField { field: "signing_pubkey", .. })));
}

#[test]
fn bad_hex_pubkey_is_finding() {
    let fs = findings(catalog(
        1,
        vec![entry("x", "X", "1.0.0", "https://x.com/x.aikpkg", "xyz-not-hex")],
    ));
    assert!(fs.iter().any(|f| matches!(f, Finding::BadPubkey { .. })));
}

#[test]
fn odd_length_hex_pubkey_is_finding() {
    let fs = findings(catalog(1, vec![entry("x", "X", "1.0.0", "https://x.com/x.aikpkg", "abc")]));
    assert!(fs.iter().any(|f| matches!(f, Finding::BadPubkey { .. })));
}

#[test]
fn bad_id_charset_is_finding() {
    let fs = findings(catalog(
        1,
        vec![entry("bad id!", "X", "1.0.0", "https://x.com/x.aikpkg", "abcd")],
    ));
    assert!(fs.iter().any(|f| matches!(f, Finding::BadId { .. })));
}

#[test]
fn non_https_download_url_is_finding() {
    let fs = findings(catalog(1, vec![entry("x", "X", "1.0.0", "http://x.com/x.aikpkg", "abcd")]));
    assert!(fs.iter().any(|f| matches!(f, Finding::BadUrl { field: "download_url", .. })));
}

#[test]
fn non_https_icon_url_is_finding() {
    let mut e = entry("x", "X", "1.0.0", "https://x.com/x.aikpkg", "abcd");
    e.icon_url = Some(s("http://x.com/icon.png"));
    let fs = findings(catalog(1, vec![e]));
    assert!(fs.iter().any(|f| matches!(f, Finding::BadUrl { field: "icon_url", .. })));
}

#[test]
fn duplicate_id_is_finding() {
    let fs = findings(catalog(
        1,
        vec![
            entry("dup", "A", "1.0.0", "https://a.com/a.aikpkg", "abcd"),
            entry("dup", "B", "1.0.0", "https://b.com/b.aikpkg", "ef01"),
        ],
    ));
    assert!(fs.iter().any(|f| matches!(f, Finding::DuplicateId { id, .. } if id == "dup")));
}

#[test]
fn display_outputs_human_readable_line() {
    let fs = findings(catalog(1, vec![entry("x", "X", "bad", "https://x.com/x.aikpkg", "abcd")]));
    let rendered = fs[0].to_line();
    assert!(rendered.to_lowercase().contains("bad semver"));
}
