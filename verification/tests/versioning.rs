use depup::{classify, parse_version, FetchError, Metadata, Version, VersionSection};

fn v(major: u64, minor: u64, patch: u64) -> Version {
    Version { major, minor, patch }
}

#[test]
fn classify_patch() {
    assert_eq!(classify(&v(1, 2, 3), &v(1, 2, 4)), Some(VersionSection::Patch));
}

#[test]
fn classify_minor() {
    assert_eq!(classify(&v(1, 2, 3), &v(1, 3, 0)), Some(VersionSection::Minor));
}

#[test]
fn classify_major() {
    assert_eq!(classify(&v(1, 2, 3), &v(2, 0, 0)), Some(VersionSection::Major));
}

#[test]
fn classify_pre_v1_overrides_patch() {
    assert_eq!(classify(&v(0, 5, 0), &v(0, 5, 1)), Some(VersionSection::PreV1));
}

#[test]
fn classify_equal_is_no_report() {
    assert_eq!(classify(&v(1, 2, 3), &v(1, 2, 3)), None);
}

#[test]
fn parse_plain_version() {
    assert_eq!(parse_version("1.2.3"), Some(v(1, 2, 3)));
    assert_eq!(parse_version("0.5.0"), Some(v(0, 5, 0)));
    assert_eq!(parse_version("4.17.21"), Some(v(4, 17, 21)));
}

#[test]
fn parse_prefixed_version() {
    assert_eq!(parse_version("^1.3.0"), Some(v(1, 3, 0)));
    assert_eq!(parse_version("~0.4.0"), Some(v(0, 4, 0)));
}

#[test]
fn parse_rejects_malformed() {
    assert_eq!(parse_version(""), None);
    assert_eq!(parse_version("1.2"), None);
    assert_eq!(parse_version("1.2.3.4"), None);
    assert_eq!(parse_version("1..3"), None);
    assert_eq!(parse_version("a.b.c"), None);
    assert_eq!(parse_version(">=1.2.3"), None);
    assert_eq!(parse_version("^"), None);
}

#[test]
fn parse_rejects_oversized_component() {
    assert_eq!(parse_version("99999999999999999999.0.0"), None);
    assert_eq!(parse_version("18446744073709551615.0.0"), Some(v(u64::MAX, 0, 0)));
}

#[test]
fn decode_metadata_happy_path() {
    let body = r#"{"name": "left-pad", "dist-tags": {"latest": "1.3.0"}, "versions": {}}"#;
    let m: Metadata = depup::decode_metadata(body).unwrap();
    assert_eq!(m.name, "left-pad");
    assert_eq!(m.dist_tags.latest, "1.3.0");
}

#[test]
fn decode_metadata_missing_field_is_decode_error() {
    let body = r#"{"name": "left-pad"}"#;
    assert_eq!(depup::decode_metadata(body).unwrap_err(), FetchError::DecodeError);
    assert_eq!(depup::decode_metadata("garbage").unwrap_err(), FetchError::DecodeError);
    let no_latest = r#"{"name": "x", "dist-tags": {}}"#;
    assert_eq!(depup::decode_metadata(no_latest).unwrap_err(), FetchError::DecodeError);
}
