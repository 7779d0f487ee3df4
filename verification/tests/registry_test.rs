use wasm_oci_serve::registry::{BlobType, ComponentEntry, Registry};

fn entry(namespace: &str, name: &str, version: &str, tag: u8) -> ComponentEntry {
    ComponentEntry {
        wasm_bytes: vec![tag, 1],
        wasm_digest: format!("sha256:w{}", tag),
        config_json: vec![tag, 2],
        config_digest: format!("sha256:c{}", tag),
        manifest_json: vec![tag, 3],
        manifest_digest: format!("sha256:m{}", tag),
        namespace: namespace.to_string(),
        name: name.to_string(),
        version: version.to_string(),
    }
}

#[test]
fn reference_and_repository() {
    let e = entry("wasi", "http", "0.2.1", 1);
    assert_eq!(e.reference(), "wasi/http:0.2.1");
    assert_eq!(e.repository(), "wasi/http");
}

#[test]
fn new_registry_is_empty() {
    let r = Registry::new();
    assert!(r.entries().is_empty());
    assert!(r.get_tags("wasi/http").is_none());
    assert!(r.get_blob("sha256:w1").is_none());
    assert!(r.get_by_reference("wasi/http:0.2.1").is_none());
}

#[test]
fn register_then_lookup_by_reference() {
    let mut r = Registry::new();
    r.register(entry("wasi", "http", "0.2.1", 1));
    let found = r.get_by_reference("wasi/http:0.2.1").unwrap();
    assert_eq!(found.wasm_bytes, vec![1, 1]);
    assert!(r.get_by_reference("wasi/http:0.2.2").is_none());
}

#[test]
fn lookup_by_manifest_digest_reference() {
    let mut r = Registry::new();
    r.register(entry("wasi", "http", "0.2.1", 1));
    let found = r.get_by_reference("wasi/http@sha256:m1").unwrap();
    assert_eq!(found.version, "0.2.1");
    // Only manifest digests resolve a digest reference
    assert!(r.get_by_reference("wasi/http@sha256:w1").is_none());
    assert!(r.get_by_reference("wasi/http@sha256:zz").is_none());
}

#[test]
fn blobs_by_digest_with_types() {
    let mut r = Registry::new();
    r.register(entry("wasi", "http", "0.2.1", 1));
    let (t, e) = r.get_blob("sha256:w1").unwrap();
    assert_eq!(t, BlobType::Wasm);
    assert_eq!(e.name, "http");
    assert_eq!(r.get_blob("sha256:c1").unwrap().0, BlobType::Config);
    assert_eq!(r.get_blob("sha256:m1").unwrap().0, BlobType::Manifest);
    assert!(r.get_blob("sha256:x").is_none());
}

#[test]
fn tags_are_kept_sorted_one_per_registration() {
    let mut r = Registry::new();
    r.register(entry("wasi", "http", "0.2.1", 1));
    r.register(entry("wasi", "http", "0.1.0", 2));
    r.register(entry("wasi", "cli", "0.2.0", 3));
    r.register(entry("wasi", "http", "1.0.0", 4));
    r.register(entry("wasi", "http", "0.2.1", 5));
    r.register(entry("wasi", "http", "0.10.0", 6));
    assert_eq!(
        r.get_tags("wasi/http").unwrap(),
        &vec![
            "0.1.0".to_string(),
            "0.10.0".to_string(),
            "0.2.1".to_string(),
            "0.2.1".to_string(),
            "1.0.0".to_string()
        ]
    );
    assert_eq!(r.get_tags("wasi/cli").unwrap(), &vec!["0.2.0".to_string()]);
    assert!(r.get_tags("wasi/other").is_none());
}

#[test]
fn entries_one_per_reference() {
    let mut r = Registry::new();
    r.register(entry("wasi", "http", "0.2.1", 1));
    r.register(entry("wasi", "cli", "0.2.0", 2));
    r.register(entry("wasi", "http", "0.2.1", 3));
    let entries = r.entries();
    assert_eq!(entries.len(), 2);
    assert_eq!(entries[0].reference(), "wasi/http:0.2.1");
    assert_eq!(entries[0].wasm_bytes, vec![3, 1]);
    assert_eq!(entries[1].reference(), "wasi/cli:0.2.0");
    assert_eq!(r.get_tags("wasi/http").unwrap(), &vec!["0.2.1".to_string(), "0.2.1".to_string()]);
}

#[test]
fn same_digest_later_index_wins() {
    let mut r = Registry::new();
    let mut e = entry("a", "b", "1", 1);
    e.config_digest = e.manifest_digest.clone();
    r.register(e);
    assert_eq!(r.get_blob("sha256:m1").unwrap().0, BlobType::Manifest);
}
