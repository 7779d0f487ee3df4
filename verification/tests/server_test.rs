use wasm_oci_serve::order::{insert_sorted_vec, str_less};
use wasm_oci_serve::registry::{ComponentEntry, Registry};
use wasm_oci_serve::server::{
    error_body, error_response, get_blob, get_manifest, head_blob, head_manifest, list_tags,
    paginate_tags, tags_list_body, unsupported_response, version_check, AppState,
};

fn entry(namespace: &str, name: &str, version: &str, tag: u8) -> ComponentEntry {
    ComponentEntry {
        wasm_bytes: vec![tag, 1, 1],
        wasm_digest: format!("sha256:w{}", tag),
        config_json: vec![tag, 2],
        config_digest: format!("sha256:c{}", tag),
        manifest_json: vec![tag, 3, 3, 3],
        manifest_digest: format!("sha256:m{}", tag),
        namespace: namespace.to_string(),
        name: name.to_string(),
        version: version.to_string(),
    }
}

fn state() -> AppState {
    let mut registry = Registry::new();
    registry.register(entry("wasi", "http", "0.2.1", 1));
    registry.register(entry("wasi", "http", "0.1.0", 2));
    registry.register(entry("wasi", "http", "1.0.0", 3));
    AppState { registry }
}

fn strings(v: &[&str]) -> Vec<String> {
    v.iter().map(|s| s.to_string()).collect()
}

#[test]
fn error_body_format() {
    assert_eq!(
        error_body("BLOB_UNKNOWN", "blob unknown"),
        r#"{"errors":[{"code":"BLOB_UNKNOWN","message":"blob unknown"}]}"#
    );
}

#[test]
fn error_body_escapes_code_and_message() {
    let body = error_body("A\"B", "say \"hi\"\\ \n\u{1}");
    assert_eq!(body, r#"{"errors":[{"code":"A\"B","message":"say \"hi\"\\ \n\u0001"}]}"#);
    let parsed: serde_json::Value = serde_json::from_str(&body).unwrap();
    assert_eq!(parsed["errors"][0]["code"], "A\"B");
    assert_eq!(parsed["errors"][0]["message"], "say \"hi\"\\ \n\u{1}");
}

#[test]
fn sorted_insertion() {
    let mut v: Vec<String> = Vec::new();
    for t in ["b", "a", "c", "b", "ab"] {
        insert_sorted_vec(&mut v, t.to_string());
    }
    assert_eq!(v, strings(&["a", "ab", "b", "b", "c"]));
}

#[test]
fn error_response_is_json() {
    let r = error_response(404, "NAME_UNKNOWN", "x");
    assert_eq!(r.status, 404);
    assert_eq!(r.content_type.as_deref(), Some("application/json"));
    assert_eq!(r.body, br#"{"errors":[{"code":"NAME_UNKNOWN","message":"x"}]}"#.to_vec());
}

#[test]
fn unsupported_operations_are_405() {
    let r = unsupported_response("blob uploads");
    assert_eq!(r.status, 405);
    assert_eq!(
        String::from_utf8(r.body).unwrap(),
        r#"{"errors":[{"code":"UNSUPPORTED","message":"blob uploads is not supported by this registry"}]}"#
    );
}

#[test]
fn version_check_is_empty_object() {
    let r = version_check();
    assert_eq!(r.status, 200);
    assert_eq!(r.body, b"{}".to_vec());
}

#[test]
fn blob_get_and_head() {
    let s = state();
    let get = get_blob(&s, "sha256:w1");
    assert_eq!(get.status, 200);
    assert_eq!(get.content_type.as_deref(), Some("application/wasm"));
    assert_eq!(get.digest.as_deref(), Some("sha256:w1"));
    assert_eq!(get.content_length, Some(3));
    assert_eq!(get.body, vec![1, 1, 1]);
    let head = head_blob(&s, "sha256:w1");
    assert_eq!(head.status, 200);
    assert_eq!(head.content_length, Some(3));
    assert!(head.body.is_empty());
    let config = get_blob(&s, "sha256:c2");
    assert_eq!(config.content_type.as_deref(), Some("application/vnd.wasm.config.v0+json"));
    assert_eq!(config.body, vec![2, 2]);
}

#[test]
fn blob_not_found() {
    let s = state();
    let get = get_blob(&s, "sha256:nope");
    assert_eq!(get.status, 404);
    assert_eq!(
        String::from_utf8(get.body).unwrap(),
        r#"{"errors":[{"code":"BLOB_UNKNOWN","message":"blob unknown"}]}"#
    );
    let head = head_blob(&s, "sha256:nope");
    assert_eq!(head.status, 404);
    assert!(head.content_type.is_none());
    assert!(head.body.is_empty());
}

#[test]
fn manifest_by_tag_and_by_digest() {
    let s = state();
    let by_tag = get_manifest(&s, "wasi", "http", "0.1.0");
    assert_eq!(by_tag.status, 200);
    assert_eq!(by_tag.digest.as_deref(), Some("sha256:m2"));
    assert_eq!(by_tag.content_type.as_deref(), Some("application/vnd.oci.image.manifest.v1+json"));
    assert_eq!(by_tag.body, vec![2, 3, 3, 3]);
    let by_digest = get_manifest(&s, "wasi", "http", "sha256:m3");
    assert_eq!(by_digest.digest.as_deref(), Some("sha256:m3"));
    // A layer digest is not a manifest
    assert_eq!(get_manifest(&s, "wasi", "http", "sha256:w3").status, 404);
    let head = head_manifest(&s, "wasi", "http", "0.1.0");
    assert_eq!(head.content_length, Some(4));
    assert!(head.body.is_empty());
}

#[test]
fn manifest_not_found() {
    let s = state();
    let r = get_manifest(&s, "wasi", "http", "9.9.9");
    assert_eq!(r.status, 404);
    assert_eq!(
        String::from_utf8(r.body).unwrap(),
        r#"{"errors":[{"code":"MANIFEST_UNKNOWN","message":"manifest unknown"}]}"#
    );
    assert_eq!(head_manifest(&s, "wasi", "cli", "0.1.0").status, 404);
}

#[test]
fn string_order_is_lexical() {
    assert!(str_less("0.1.0", "0.2.1"));
    assert!(!str_less("0.2.1", "0.2.1"));
    assert!(str_less("a", "ab"));
    assert!(!str_less("b", "ab"));
    assert!(str_less("Z", "a"));
    assert!(str_less("z", "é"));
}

#[test]
fn pagination() {
    let tags = strings(&["0.2.1", "0.1.0", "1.0.0"]);
    assert_eq!(paginate_tags(&tags, None, None), tags);
    assert_eq!(paginate_tags(&tags, Some(2), None), strings(&["0.2.1", "0.1.0"]));
    assert_eq!(paginate_tags(&tags, None, Some("0.1.0")), strings(&["0.2.1", "1.0.0"]));
    assert_eq!(paginate_tags(&tags, Some(1), Some("0.1.0")), strings(&["0.2.1"]));
    assert_eq!(paginate_tags(&tags, Some(0), None), Vec::<String>::new());
    assert_eq!(paginate_tags(&tags, None, Some("9")), Vec::<String>::new());
}

#[test]
fn tags_body_is_compact_json() {
    assert_eq!(
        tags_list_body("wasi/http", &strings(&["a", "b\"c"])),
        r#"{"name":"wasi/http","tags":["a","b\"c"]}"#
    );
    assert_eq!(tags_list_body("x/y", &Vec::new()), r#"{"name":"x/y","tags":[]}"#);
}

#[test]
fn list_tags_reply() {
    let s = state();
    let r = list_tags(&s, "wasi", "http", Some(2), Some("0.1.0"));
    assert_eq!(r.status, 200);
    assert_eq!(
        String::from_utf8(r.body).unwrap(),
        r#"{"name":"wasi/http","tags":["0.2.1","1.0.0"]}"#
    );
    let all = list_tags(&s, "wasi", "http", None, None);
    assert_eq!(
        String::from_utf8(all.body).unwrap(),
        r#"{"name":"wasi/http","tags":["0.1.0","0.2.1","1.0.0"]}"#
    );
    let missing = list_tags(&s, "wasi", "cli", None, None);
    assert_eq!(missing.status, 404);
    assert_eq!(
        String::from_utf8(missing.body).unwrap(),
        r#"{"errors":[{"code":"NAME_UNKNOWN","message":"repository name not known to registry"}]}"#
    );
}
