use codex_akram::versions::{
    extract_version_from_latest_tag, is_newer, is_source_build_version, parse_codex_version,
    parse_version,
};

#[test]
fn parses_codex_cli_version_output() {
    assert_eq!(
        parse_codex_version("codex-akram 0.145.0-ak.0.1\n").expect("version"),
        "0.145.0-ak.0.1"
    );
}

#[test]
fn rejects_malformed_codex_cli_version_output() {
    assert!(parse_codex_version("codex\n").is_err());
}

#[test]
fn extracts_version_from_latest_tag() {
    assert_eq!(
        extract_version_from_latest_tag("v0.145.0-ak.0.2").expect("failed to parse version"),
        "0.145.0-ak.0.2"
    );
}

#[test]
fn latest_tag_without_prefix_is_invalid() {
    assert!(extract_version_from_latest_tag("rust-v0.145.0").is_err());
}

#[test]
fn fork_prerelease_versions_follow_semver_ordering() {
    assert_eq!(is_newer("0.145.0-ak.0.2", "0.145.0-ak.0.1"), Some(true));
    assert_eq!(is_newer("0.145.0-ak.0.1", "0.145.0"), Some(false));
}

#[test]
fn plain_semver_comparisons_work() {
    assert_eq!(is_newer("0.11.1", "0.11.0"), Some(true));
    assert_eq!(is_newer("0.11.0", "0.11.1"), Some(false));
    assert_eq!(is_newer("1.0.0", "0.9.9"), Some(true));
    assert_eq!(is_newer("0.9.9", "1.0.0"), Some(false));
}

#[test]
fn source_build_version_is_not_checked() {
    assert!(is_source_build_version("0.0.0"));
    assert!(!is_source_build_version("0.1.0"));
}

#[test]
fn whitespace_is_ignored() {
    assert_eq!(parse_version(" 1.2.3 \n"), Some((1, 2, 3)));
    assert_eq!(is_newer(" 1.2.3 ", "1.2.2"), Some(true));
}

#[test]
fn unparsable_versions_give_no_answer() {
    assert_eq!(is_newer("latest", "1.0.0"), None);
    assert_eq!(is_newer("1.0.0", ""), None);
    assert_eq!(is_newer("   ", "1.0.0"), None);
    assert_eq!(parse_version("1.2"), None);
    assert!(!is_source_build_version("not a version"));
}

#[test]
fn equal_versions_are_not_newer_either_way() {
    assert_eq!(is_newer("2.3.4", "2.3.4"), Some(false));
    assert_eq!(is_newer("2.3.4-rc.1", "2.3.4-rc.1"), Some(false));
}

#[test]
fn newer_is_asymmetric_on_samples() {
    let samples = ["0.1.0", "0.1.0-alpha", "0.1.0-alpha.2", "0.1.0-alpha.10", "1.0.0", "0.9.99"];
    for a in samples {
        for b in samples {
            if is_newer(a, b) == Some(true) {
                assert_eq!(is_newer(b, a), Some(false));
            }
        }
    }
}

#[test]
fn numeric_prerelease_fields_compare_numerically() {
    assert_eq!(is_newer("1.0.0-alpha.10", "1.0.0-alpha.2"), Some(true));
}

#[test]
fn parse_version_reads_the_numbers() {
    assert_eq!(parse_version("10.20.30-beta+build.5"), Some((10, 20, 30)));
    assert!(is_source_build_version("\t0.0.0\n"));
}

#[test]
fn tag_error_names_the_tag() {
    let err = extract_version_from_latest_tag("rust-v0.145.0").unwrap_err();
    assert_eq!(err.tag, "rust-v0.145.0");
    assert_eq!(err.message(), "Failed to parse latest tag name 'rust-v0.145.0'");
}

#[test]
fn empty_tag_is_invalid() {
    assert!(extract_version_from_latest_tag("").is_err());
    assert_eq!(extract_version_from_latest_tag("v").unwrap(), "");
}

#[test]
fn tag_roundtrips_through_its_prefix() {
    let tag = "v1.2.3";
    let version = extract_version_from_latest_tag(tag).unwrap();
    assert_eq!(format!("v{version}"), tag);
}

#[test]
fn codex_version_takes_the_second_word() {
    assert_eq!(parse_codex_version("  codex-akram \t 1.2.3  extra\n").unwrap(), "1.2.3");
    let err = parse_codex_version("   \n").unwrap_err();
    assert_eq!(err.output, "   \n");
    assert!(parse_codex_version("").is_err());
}
