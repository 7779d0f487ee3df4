//! The artifact writers produce exactly what `serde_json::to_vec_pretty`
//! writes for the same values, field order and skipped fields included.

use std::collections::BTreeMap;

use serde::ser::{Serialize, SerializeStruct, Serializer};
use wasm_oci_serve::oci::{config_document, generate_manifest, ComponentInfo, WasmConfig};

struct Descriptor {
    media_type: String,
    digest: String,
    size: i64,
    annotations: Option<BTreeMap<String, String>>,
}

impl Serialize for Descriptor {
    fn serialize<S: Serializer>(&self, s: S) -> Result<S::Ok, S::Error> {
        let mut st = s.serialize_struct("OciDescriptor", 4)?;
        st.serialize_field("mediaType", &self.media_type)?;
        st.serialize_field("digest", &self.digest)?;
        st.serialize_field("size", &self.size)?;
        if let Some(a) = &self.annotations {
            st.serialize_field("annotations", a)?;
        }
        st.end()
    }
}

struct Manifest {
    schema_version: u8,
    media_type: String,
    config: Descriptor,
    layers: Vec<Descriptor>,
}

impl Serialize for Manifest {
    fn serialize<S: Serializer>(&self, s: S) -> Result<S::Ok, S::Error> {
        let mut st = s.serialize_struct("OciManifest", 4)?;
        st.serialize_field("schemaVersion", &self.schema_version)?;
        st.serialize_field("mediaType", &self.media_type)?;
        st.serialize_field("config", &self.config)?;
        st.serialize_field("layers", &self.layers)?;
        st.end()
    }
}

struct Info {
    exports: Vec<String>,
    imports: Vec<String>,
    target: Option<String>,
}

impl Serialize for Info {
    fn serialize<S: Serializer>(&self, s: S) -> Result<S::Ok, S::Error> {
        let mut st = s.serialize_struct("ComponentInfo", 3)?;
        st.serialize_field("exports", &self.exports)?;
        st.serialize_field("imports", &self.imports)?;
        if let Some(t) = &self.target {
            st.serialize_field("target", t)?;
        }
        st.end()
    }
}

struct Config {
    created: String,
    architecture: String,
    os: String,
    layer_digests: Vec<String>,
    component: Option<Info>,
}

impl Serialize for Config {
    fn serialize<S: Serializer>(&self, s: S) -> Result<S::Ok, S::Error> {
        let mut st = s.serialize_struct("WasmConfig", 5)?;
        st.serialize_field("created", &self.created)?;
        st.serialize_field("architecture", &self.architecture)?;
        st.serialize_field("os", &self.os)?;
        st.serialize_field("layerDigests", &self.layer_digests)?;
        if let Some(c) = &self.component {
            st.serialize_field("component", c)?;
        }
        st.end()
    }
}

fn strings(v: &[&str]) -> Vec<String> {
    v.iter().map(|s| s.to_string()).collect()
}

#[test]
fn manifest_matches_serde_json() {
    let title = "we\"ird\\name\n\t\u{7f}\u{1f}é😀.wasm";
    let (json, _) = generate_manifest(1234, "sha256:ab", 56, "sha256:cd", title).unwrap();
    let mut annotations = BTreeMap::new();
    annotations.insert("org.opencontainers.image.title".to_string(), title.to_string());
    let expected = Manifest {
        schema_version: 2,
        media_type: "application/vnd.oci.image.manifest.v1+json".to_string(),
        config: Descriptor {
            media_type: "application/vnd.wasm.config.v0+json".to_string(),
            digest: "sha256:cd".to_string(),
            size: 56,
            annotations: None,
        },
        layers: vec![Descriptor {
            media_type: "application/wasm".to_string(),
            digest: "sha256:ab".to_string(),
            size: 1234,
            annotations: Some(annotations),
        }],
    };
    assert_eq!(json, serde_json::to_vec_pretty(&expected).unwrap());
}

#[test]
fn config_document_matches_serde_json() {
    let exports = strings(&["wasi:http/handler@0.2.0", "q\"uote", "ctl\u{0}\u{8}\u{c}\r"]);
    let imports = strings(&["wasi:io/streams@0.2.0"]);
    let info = ComponentInfo { exports: exports.clone(), imports: imports.clone(), target: None };
    let (json, _) = config_document("1970-01-01T00:00:00Z".to_string(), "sha256:ab", info);
    let expected = Config {
        created: "1970-01-01T00:00:00Z".to_string(),
        architecture: "wasm".to_string(),
        os: "wasip2".to_string(),
        layer_digests: strings(&["sha256:ab"]),
        component: Some(Info { exports, imports, target: None }),
    };
    assert_eq!(json, serde_json::to_vec_pretty(&expected).unwrap());
}

#[test]
fn config_with_target_and_no_component_matches_serde_json() {
    let with_target = WasmConfig {
        created: "c".to_string(),
        architecture: "a".to_string(),
        os: "o".to_string(),
        layer_digests: Vec::new(),
        component: Some(ComponentInfo { exports: Vec::new(), imports: Vec::new(), target: Some("t".to_string()) }),
    };
    let expected = Config {
        created: "c".to_string(),
        architecture: "a".to_string(),
        os: "o".to_string(),
        layer_digests: Vec::new(),
        component: Some(Info { exports: Vec::new(), imports: Vec::new(), target: Some("t".to_string()) }),
    };
    assert_eq!(with_target.to_json(), serde_json::to_vec_pretty(&expected).unwrap());
    let bare = WasmConfig {
        created: "c".to_string(),
        architecture: "a".to_string(),
        os: "o".to_string(),
        layer_digests: strings(&["x", "y"]),
        component: None,
    };
    let expected_bare = Config {
        created: "c".to_string(),
        architecture: "a".to_string(),
        os: "o".to_string(),
        layer_digests: strings(&["x", "y"]),
        component: None,
    };
    assert_eq!(bare.to_json(), serde_json::to_vec_pretty(&expected_bare).unwrap());
}
