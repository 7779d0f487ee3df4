use wasm_metadata::{AddMetadata, AddMetadataField, Version};
use wasm_oci_serve::component::{extract_component_info, package_export_names};
use wasm_oci_serve::error::OciError;
use wasm_oci_serve::oci::{extract_metadata, load_component};

fn empty_component() -> Vec<u8> {
    vec![0x00, 0x61, 0x73, 0x6d, 0x0d, 0x00, 0x01, 0x00]
}

fn strings(v: &[&str]) -> Vec<String> {
    v.iter().map(|s| s.to_string()).collect()
}

fn wit_package() -> Vec<u8> {
    let mut resolve = wit_parser::Resolve::default();
    let pkg = resolve
        .push_str(
            "demo.wit",
            "package demo:pkg@1.0.0;\n\
             interface api { f: func(); }\n\
             interface extra { g: func(); }\n\
             world w { export api; }\n",
        )
        .unwrap();
    wit_component::encode(&resolve, pkg).unwrap()
}

#[test]
fn empty_component_has_no_interfaces() {
    let info = extract_component_info(&empty_component()).unwrap();
    assert!(info.exports.is_empty());
    assert!(info.imports.is_empty());
    assert!(info.target.is_none());
}

#[test]
fn undecodable_bytes_are_rejected() {
    assert!(matches!(extract_component_info(b"hello"), Err(OciError::InvalidComponent(_))));
}

#[test]
fn wit_package_exports_each_name_once() {
    let info = extract_component_info(&wit_package()).unwrap();
    let mut exports = info.exports.clone();
    exports.sort();
    assert_eq!(
        exports,
        strings(&["demo:pkg/api@1.0.0", "demo:pkg/extra@1.0.0", "demo:pkg/w@1.0.0"])
    );
    assert!(info.imports.is_empty());
}

#[test]
fn package_export_names_order_and_dedup() {
    let worlds = vec![
        ("w".to_string(), strings(&["demo:pkg/api@1.0.0", "local"])),
        ("v".to_string(), strings(&["local"])),
    ];
    let ids = vec![Some("demo:pkg/api@1.0.0".to_string()), None, Some("demo:pkg/x@1.0.0".to_string())];
    let exports = package_export_names("demo", "pkg", &Some("1.0.0".to_string()), &worlds, &ids);
    assert_eq!(
        exports,
        strings(&[
            "demo:pkg/api@1.0.0",
            "local",
            "demo:pkg/w@1.0.0",
            "demo:pkg/v@1.0.0",
            "demo:pkg/x@1.0.0",
        ])
    );
}

#[test]
fn package_export_names_without_version() {
    let worlds = vec![("root".to_string(), Vec::new())];
    let exports = package_export_names("ns", "name", &None, &worlds, &Vec::new());
    assert_eq!(exports, strings(&["ns:name/root"]));
}

#[test]
fn metadata_name_and_version_are_read() {
    let mut meta = AddMetadata::default();
    meta.name = AddMetadataField::Set("wasi:http".to_string());
    meta.version = AddMetadataField::Set(Version::new("0.2.1"));
    let wasm = meta.to_wasm(&empty_component()).unwrap();
    let (ns, name, version) = extract_metadata(&wasm, Some("ignored")).unwrap();
    assert_eq!((ns.as_str(), name.as_str(), version.as_str()), ("wasi", "http", "0.2.1"));
    let entry = load_component(wasm, None).unwrap();
    assert_eq!(entry.reference(), "wasi/http:0.2.1");
}
