use serde_json::Value;
use wasm_oci_serve::error::OciError;
use wasm_oci_serve::metadata::component_identity;
use wasm_oci_serve::oci::{
    extract_metadata, generate_config, generate_manifest, load_component, sha256_digest,
    CONFIG_CREATED, WASM_CONFIG_MEDIA_TYPE, WASM_LAYER_MEDIA_TYPE, WASM_MANIFEST_MEDIA_TYPE,
};

/// The smallest component binary: preamble and version, no sections.
fn empty_component() -> Vec<u8> {
    vec![0x00, 0x61, 0x73, 0x6d, 0x0d, 0x00, 0x01, 0x00]
}

#[test]
fn sha256_digest_of_empty_input() {
    assert_eq!(
        sha256_digest(b""),
        "sha256:e3b0c44298fc1c149afbf4c8996fb92427ae41e4649b934ca495991b7852b855"
    );
}

#[test]
fn sha256_digest_of_abc() {
    let d = sha256_digest(b"abc");
    assert_eq!(d, "sha256:ba7816bf8f01cfea414140de5dae2223b00361a396177a9cb410ff61f20015ad");
    assert_eq!(d.len(), 71);
}

#[test]
fn component_identity_splits_at_first_colon() {
    let (ns, name, version) =
        component_identity(Some("wasi:http:extra".to_string()), Some("0.2.1".to_string()), None).unwrap();
    assert_eq!(ns, "wasi");
    assert_eq!(name, "http:extra");
    assert_eq!(version, "0.2.1");
}

#[test]
fn component_identity_defaults() {
    let (ns, name, version) = component_identity(None, None, Some("wasi-http")).unwrap();
    assert_eq!(ns, "local");
    assert_eq!(name, "wasi-http");
    assert_eq!(version, "0.0.0");
}

#[test]
fn component_identity_prefers_recorded_name() {
    let (ns, name, _) = component_identity(Some("a:b".to_string()), None, Some("file")).unwrap();
    assert_eq!((ns.as_str(), name.as_str()), ("a", "b"));
}

#[test]
fn component_identity_without_any_name() {
    assert!(matches!(component_identity(None, Some("1.0.0".to_string()), None), Err(OciError::MissingName)));
}

#[test]
fn extract_metadata_rejects_garbage() {
    let r = extract_metadata(b"not wasm at all", Some("x"));
    assert!(matches!(r, Err(OciError::InvalidMetadata(_))));
}

#[test]
fn extract_metadata_uses_file_name() {
    let (ns, name, version) = extract_metadata(&empty_component(), Some("wasi:http")).unwrap();
    assert_eq!((ns.as_str(), name.as_str(), version.as_str()), ("wasi", "http", "0.0.0"));
}

#[test]
fn extract_metadata_needs_a_name() {
    let r = extract_metadata(&empty_component(), None);
    assert!(matches!(r, Err(OciError::MissingName)));
}

#[test]
fn generate_manifest_exact_text() {
    let (json, digest) = generate_manifest(8, "sha256:aa", 120, "sha256:bb", "x.wasm").unwrap();
    let expected = "{\n  \"schemaVersion\": 2,\n  \"mediaType\": \"application/vnd.oci.image.manifest.v1+json\",\n  \"config\": {\n    \"mediaType\": \"application/vnd.wasm.config.v0+json\",\n    \"digest\": \"sha256:bb\",\n    \"size\": 120\n  },\n  \"layers\": [\n    {\n      \"mediaType\": \"application/wasm\",\n      \"digest\": \"sha256:aa\",\n      \"size\": 8,\n      \"annotations\": {\n        \"org.opencontainers.image.title\": \"x.wasm\"\n      }\n    }\n  ]\n}";
    assert_eq!(String::from_utf8(json.clone()).unwrap(), expected);
    assert_eq!(digest, sha256_digest(&json));
}

#[test]
fn generate_manifest_escapes_title() {
    let (json, _) = generate_manifest(1, "sha256:aa", 2, "sha256:bb", "a\"b\\c\n\u{1}.wasm").unwrap();
    let v: Value = serde_json::from_slice(&json).unwrap();
    assert_eq!(
        v["layers"][0]["annotations"]["org.opencontainers.image.title"],
        "a\"b\\c\n\u{1}.wasm"
    );
    let text = String::from_utf8(json).unwrap();
    assert!(text.contains("a\\\"b\\\\c\\n\\u0001.wasm"));
}

#[test]
fn generate_config_rejects_garbage() {
    assert!(matches!(generate_config(b"\x00asm", "sha256:aa"), Err(OciError::InvalidComponent(_))));
}

#[test]
fn generate_config_of_empty_component() {
    let (json, digest) = generate_config(&empty_component(), "sha256:aa").unwrap();
    assert_eq!(digest, sha256_digest(&json));
    let v: Value = serde_json::from_slice(&json).unwrap();
    assert_eq!(v["architecture"], "wasm");
    assert_eq!(v["os"], "wasip2");
    assert_eq!(v["layerDigests"].as_array().unwrap().len(), 1);
    assert_eq!(v["layerDigests"][0], "sha256:aa");
    assert!(v["component"]["exports"].as_array().unwrap().is_empty());
    assert!(v["component"]["imports"].as_array().unwrap().is_empty());
    assert!(v["component"].get("target").is_none());
    assert_eq!(v["created"], CONFIG_CREATED);
    let text = String::from_utf8(json.clone()).unwrap();
    assert!(text.starts_with("{\n  \"created\": \"1970-01-01T00:00:00Z\""));
    assert!(text.contains("\"exports\": [],\n    \"imports\": []\n  }\n}"));
}

#[test]
fn load_component_builds_consistent_artifacts() {
    let wasm = empty_component();
    let entry = load_component(wasm.clone(), Some("wasi:http")).unwrap();
    assert_eq!(entry.namespace, "wasi");
    assert_eq!(entry.name, "http");
    assert_eq!(entry.version, "0.0.0");
    assert_eq!(entry.wasm_bytes, wasm);
    assert_eq!(entry.wasm_digest, sha256_digest(&wasm));
    assert_eq!(entry.config_digest, sha256_digest(&entry.config_json));
    assert_eq!(entry.manifest_digest, sha256_digest(&entry.manifest_json));
    assert_eq!(entry.reference(), "wasi/http:0.0.0");
    assert_eq!(entry.repository(), "wasi/http");

    let m: Value = serde_json::from_slice(&entry.manifest_json).unwrap();
    assert_eq!(m["schemaVersion"], 2);
    assert_eq!(m["mediaType"], WASM_MANIFEST_MEDIA_TYPE);
    assert_eq!(m["config"]["mediaType"], WASM_CONFIG_MEDIA_TYPE);
    assert_eq!(m["config"]["digest"], entry.config_digest.as_str());
    assert_eq!(m["config"]["size"], entry.config_json.len() as i64);
    assert_eq!(m["layers"][0]["mediaType"], WASM_LAYER_MEDIA_TYPE);
    assert_eq!(m["layers"][0]["digest"], entry.wasm_digest.as_str());
    assert_eq!(m["layers"][0]["size"], 8);
    assert_eq!(m["layers"][0]["annotations"]["org.opencontainers.image.title"], "http.wasm");

    let c: Value = serde_json::from_slice(&entry.config_json).unwrap();
    assert_eq!(c["layerDigests"][0], entry.wasm_digest.as_str());
}

#[test]
fn loading_is_deterministic() {
    let a = load_component(empty_component(), Some("wasi:http")).unwrap();
    let b = load_component(empty_component(), Some("wasi:http")).unwrap();
    assert_eq!(a.config_json, b.config_json);
    assert_eq!(a.config_digest, b.config_digest);
    assert_eq!(a.manifest_json, b.manifest_json);
    assert_eq!(a.manifest_digest, b.manifest_digest);
    let (c1, d1) = generate_config(&empty_component(), "sha256:aa").unwrap();
    let (c2, d2) = generate_config(&empty_component(), "sha256:aa").unwrap();
    assert_eq!(c1, c2);
    assert_eq!(d1, d2);
}

#[test]
fn load_component_reports_metadata_errors_first() {
    assert!(matches!(load_component(b"junk".to_vec(), None), Err(OciError::InvalidMetadata(_))));
    assert!(matches!(load_component(empty_component(), None), Err(OciError::MissingName)));
}

#[test]
fn error_messages() {
    assert_eq!(OciError::MissingName.message(), "WASM component missing 'name' in metadata and no filename provided.");
    assert_eq!(OciError::InvalidComponent(String::new()).message(), "Failed to decode WASM component");
    assert_eq!(OciError::InvalidMetadata(String::new()).message(), "Failed to parse WASM metadata");
}

