use regex::Regex;
use wasm_oci_serve::routes::{endpoints, error_codes, patterns, API_VERSION};

#[test]
fn test_version_check_route() {
    assert_eq!(endpoints::VERSION_CHECK, "/v2/");
}

#[test]
fn test_blobs_route_format() {
    // Verify the route contains expected parameters
    assert!(endpoints::BLOBS.contains("{namespace}"));
    assert!(endpoints::BLOBS.contains("{name}"));
    assert!(endpoints::BLOBS.contains("{digest}"));
    assert!(endpoints::BLOBS.starts_with("/v2/"));
    assert!(endpoints::BLOBS.contains("/blobs/"));
}

#[test]
fn test_manifests_route_format() {
    assert!(endpoints::MANIFESTS.contains("{namespace}"));
    assert!(endpoints::MANIFESTS.contains("{name}"));
    assert!(endpoints::MANIFESTS.contains("{reference}"));
    assert!(endpoints::MANIFESTS.starts_with("/v2/"));
    assert!(endpoints::MANIFESTS.contains("/manifests/"));
}

#[test]
fn test_tags_list_route_format() {
    assert!(endpoints::TAGS_LIST.contains("{namespace}"));
    assert!(endpoints::TAGS_LIST.contains("{name}"));
    assert!(endpoints::TAGS_LIST.starts_with("/v2/"));
    assert!(endpoints::TAGS_LIST.ends_with("/tags/list"));
}

#[test]
fn test_name_pattern_valid() {
    let re = Regex::new(&format!("^{}$", patterns::NAME_PATTERN)).unwrap();

    // Valid names from the spec
    assert!(re.is_match("library/ubuntu"));
    assert!(re.is_match("wasi/http"));
    assert!(re.is_match("namespace/name"));
    assert!(re.is_match("simple"));
    assert!(re.is_match("with-dash"));
    assert!(re.is_match("with.dot"));
    assert!(re.is_match("with_underscore"));
    assert!(re.is_match("with__double"));
    assert!(re.is_match("multi/level/path"));
}

#[test]
fn test_name_pattern_invalid() {
    let re = Regex::new(&format!("^{}$", patterns::NAME_PATTERN)).unwrap();

    // Invalid names
    assert!(!re.is_match("UPPERCASE"));
    assert!(!re.is_match("-startwithdash"));
    assert!(!re.is_match(".startwithdot"));
}

#[test]
fn test_tag_pattern_valid() {
    let re = Regex::new(&format!("^{}$", patterns::TAG_PATTERN)).unwrap();

    // Valid tags
    assert!(re.is_match("latest"));
    assert!(re.is_match("v1.0.0"));
    assert!(re.is_match("1.0"));
    assert!(re.is_match("release-1"));
    assert!(re.is_match("_private"));
}

#[test]
fn test_tag_max_length() {
    assert_eq!(patterns::MAX_TAG_LENGTH, 128);
}

#[test]
fn test_error_codes_uppercase() {
    // Spec requires: "containing only uppercase alphabetic characters and underscores"
    let codes = [
        error_codes::BLOB_UNKNOWN,
        error_codes::MANIFEST_UNKNOWN,
        error_codes::NAME_UNKNOWN,
    ];

    for code in codes {
        assert!(
            code.chars().all(|c| c.is_ascii_uppercase() || c == '_'),
            "Error code '{}' must be uppercase with underscores only",
            code
        );
    }
}

#[test]
fn all_error_codes_are_uppercase() {
    let codes = [
        error_codes::BLOB_UNKNOWN,
        error_codes::BLOB_UPLOAD_INVALID,
        error_codes::BLOB_UPLOAD_UNKNOWN,
        error_codes::DIGEST_INVALID,
        error_codes::MANIFEST_BLOB_UNKNOWN,
        error_codes::MANIFEST_INVALID,
        error_codes::MANIFEST_UNKNOWN,
        error_codes::NAME_INVALID,
        error_codes::NAME_UNKNOWN,
        error_codes::SIZE_INVALID,
        error_codes::UNAUTHORIZED,
        error_codes::DENIED,
        error_codes::UNSUPPORTED,
        error_codes::TOOMANYREQUESTS,
    ];
    for code in codes {
        assert!(code.chars().all(|c| c.is_ascii_uppercase() || c == '_'));
    }
}

#[test]
fn every_endpoint_is_under_the_api_version() {
    for route in [
        endpoints::VERSION_CHECK,
        endpoints::BLOBS,
        endpoints::MANIFESTS,
        endpoints::TAGS_LIST,
        endpoints::BLOB_UPLOADS,
        endpoints::BLOB_UPLOAD_SESSION,
        endpoints::REFERRERS,
    ] {
        assert!(route.starts_with(API_VERSION));
    }
}

#[test]
fn name_pattern_rejects_uppercase_in_second_component() {
    let re = Regex::new(&format!("^{}$", patterns::NAME_PATTERN)).unwrap();
    assert!(!re.is_match("ok/NotOk"));
    assert!(!re.is_match("trailing-"));
}
