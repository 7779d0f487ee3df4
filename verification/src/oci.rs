//! OCI artifacts for WebAssembly components: the config and manifest
//! documents, their exact JSON text, and their digests.

use vstd::prelude::*;

use vstd::utf8::encode_utf8;

use crate::component::{extract_component_info, info_of, wasm_decoded_kind};
use crate::digest::{digest_of, lemma_hex_lower_len, sha256_bytes};
use crate::error::{error_text, OciError};
use crate::metadata::{component_identity, identity_of, opt_str_view, read_name_and_version, wasm_name_and_version};
use crate::registry::{ComponentEntry, EntryView};
use crate::json::{
    int_text, item_sep, pair_object_text, str_array_text, write_int, write_pair_object,
    write_str_array,
};
use crate::order::lex_less;
use crate::text::{decimal, indent, json_str, push_char, write_decimal, write_hex, write_indent, write_json_str};

verus! {

/// Media type of the OCI image manifest.
pub const WASM_MANIFEST_MEDIA_TYPE: &'static str = "application/vnd.oci.image.manifest.v1+json";

/// Media type of the WebAssembly config blob.
pub const WASM_CONFIG_MEDIA_TYPE: &'static str = "application/vnd.wasm.config.v0+json";

/// Media type of the WebAssembly layer.
pub const WASM_LAYER_MEDIA_TYPE: &'static str = "application/wasm";

/// The creation time recorded in every config: the Unix epoch, in RFC 3339
/// form, so that a component always gives the same config and manifest bytes
/// and digests.
pub const CONFIG_CREATED: &'static str = "1970-01-01T00:00:00Z";

/// Compute SHA256 digest of bytes in OCI format (`sha256:<lowercase hex>`).
pub fn sha256_digest(bytes: &[u8]) -> (digest: String)
    ensures
        digest@ == digest_of(bytes@),
        digest@.len() == 71,
{
    let hash = sha256_bytes(bytes);
    let mut out = "sha256:".to_owned();
    write_hex(&mut out, hash.as_slice());
    proof {
        reveal_strlit("sha256:");
        lemma_hex_lower_len(hash@);
    }
    out
}


/// OCI descriptor for referencing blobs.
#[derive(Debug, Clone)]
pub struct OciDescriptor {
    pub media_type: String,
    pub digest: String,
    pub size: i64,
    /// String annotations in ascending key order, when present.
    pub annotations: Option<Vec<(String, String)>>,
}

/// OCI image manifest.
#[derive(Debug, Clone)]
pub struct OciManifest {
    pub schema_version: u8,
    pub media_type: String,
    pub config: OciDescriptor,
    pub layers: Vec<OciDescriptor>,
}

/// Component information embedded in config.
#[derive(Debug, Clone)]
pub struct ComponentInfo {
    pub exports: Vec<String>,
    pub imports: Vec<String>,
    pub target: Option<String>,
}

/// WASM config blob structure. `created` holds the creation time as the
/// RFC 3339 text that goes into the document.
#[derive(Debug, Clone)]
pub struct WasmConfig {
    pub created: String,
    pub architecture: String,
    pub os: String,
    pub layer_digests: Vec<String>,
    pub component: Option<ComponentInfo>,
}

pub struct DescriptorView {
    pub media_type: Seq<char>,
    pub digest: Seq<char>,
    pub size: int,
    pub annotations: Option<Seq<(Seq<char>, Seq<char>)>>,
}

pub struct ManifestView {
    pub schema_version: nat,
    pub media_type: Seq<char>,
    pub config: DescriptorView,
    pub layers: Seq<DescriptorView>,
}

pub struct ComponentInfoView {
    pub exports: Seq<Seq<char>>,
    pub imports: Seq<Seq<char>>,
    pub target: Option<Seq<char>>,
}

pub struct WasmConfigView {
    pub created: Seq<char>,
    pub architecture: Seq<char>,
    pub os: Seq<char>,
    pub layer_digests: Seq<Seq<char>>,
    pub component: Option<ComponentInfoView>,
}

impl DescriptorView {
    /// The annotations are keyed in ascending order, no key twice, as the
    /// JSON object they become lists them.
    pub open spec fn wf(self) -> bool {
        match self.annotations {
            None => true,
            Some(pairs) => forall|i: int, j: int|
                0 <= i < j < pairs.len() ==> lex_less(#[trigger] pairs[i].0, #[trigger] pairs[j].0),
        }
    }
}

impl ManifestView {
    /// Every descriptor of the manifest is well formed.
    pub open spec fn wf(self) -> bool {
        &&& self.config.wf()
        &&& forall|i: int| 0 <= i < self.layers.len() ==> (#[trigger] self.layers[i]).wf()
    }
}

impl View for OciDescriptor {
    type V = DescriptorView;

    open spec fn view(&self) -> DescriptorView {
        DescriptorView {
            media_type: self.media_type@,
            digest: self.digest@,
            size: self.size as int,
            annotations: self.annotations.deep_view(),
        }
    }
}

impl View for OciManifest {
    type V = ManifestView;

    open spec fn view(&self) -> ManifestView {
        ManifestView {
            schema_version: self.schema_version as nat,
            media_type: self.media_type@,
            config: self.config@,
            layers: self.layers@.map_values(|d: OciDescriptor| d@),
        }
    }
}

impl View for ComponentInfo {
    type V = ComponentInfoView;

    open spec fn view(&self) -> ComponentInfoView {
        ComponentInfoView {
            exports: self.exports.deep_view(),
            imports: self.imports.deep_view(),
            target: self.target.deep_view(),
        }
    }
}

impl View for WasmConfig {
    type V = WasmConfigView;

    open spec fn view(&self) -> WasmConfigView {
        WasmConfigView {
            created: self.created@,
            architecture: self.architecture@,
            os: self.os@,
            layer_digests: self.layer_digests.deep_view(),
            component: match self.component {
                Some(c) => Some(c@),
                None => None,
            },
        }
    }
}

/// The lines of a pretty-printed object: a key line at `level + 1` for
/// each field, in order.
pub open spec fn field_text(first: bool, level: nat, key: Seq<char>, value: Seq<char>) -> Seq<char> {
    item_sep(first) + indent(level + 1) + key + value
}

/// The closing line of a pretty-printed object at `level`.
pub open spec fn close_text(level: nat) -> Seq<char> {
    seq!['\n'] + indent(level) + seq!['}']
}

/// The annotations field of a descriptor, absent when there are none.
pub open spec fn annotations_text(annotations: Option<Seq<(Seq<char>, Seq<char>)>>, level: nat) -> Seq<char> {
    match annotations {
        None => Seq::empty(),
        Some(pairs) => field_text(false, level, "\"annotations\": "@, pair_object_text(pairs, level + 1)),
    }
}

/// A descriptor as serialized into a manifest, its brace at `level`.
pub open spec fn descriptor_text(d: DescriptorView, level: nat) -> Seq<char> {
    seq!['{'] + field_text(true, level, "\"mediaType\": "@, json_str(d.media_type))
        + field_text(false, level, "\"digest\": "@, json_str(d.digest))
        + field_text(false, level, "\"size\": "@, int_text(d.size))
        + annotations_text(d.annotations, level) + close_text(level)
}

/// Starts a field of a pretty-printed object: separator, indentation, key.
pub fn write_field_start(out: &mut String, first: bool, level: usize, key: &str)
    requires
        level < 1000,
    ensures
        final(out)@ == old(out)@ + (item_sep(first) + indent((level + 1) as nat) + key@),
{
    let ghost start = out@;
    if first {
        push_char(out, '\n');
    } else {
        push_char(out, ',');
        push_char(out, '\n');
    }
    write_indent(out, level + 1);
    out.append(key);
    assert(out@ =~= start + (item_sep(first) + indent((level + 1) as nat) + key@));
}

/// Closes a pretty-printed object at `level`.
pub fn write_close(out: &mut String, level: usize)
    requires
        level < 1000,
    ensures
        final(out)@ == old(out)@ + close_text(level as nat),
{
    let ghost start = out@;
    push_char(out, '\n');
    write_indent(out, level);
    push_char(out, '}');
    assert(out@ =~= start + close_text(level as nat));
}

/// `(s + a) + b` and `s + (a + b)` are the same sequence.
pub proof fn lemma_concat3(s: Seq<char>, a: Seq<char>, b: Seq<char>)
    ensures
        s + a + b == s + (a + b),
{
    vstd::seq_lib::lemma_concat_associative(s, a, b);
}

/// Appends a descriptor's pretty JSON.
pub fn write_descriptor(out: &mut String, d: &OciDescriptor, level: usize)
    requires
        level < 900,
    ensures
        final(out)@ == old(out)@ + descriptor_text(d@, level as nat),
{
    let ghost start = out@;
    let ghost dv = d@;
    let ghost lv = level as nat;
    push_char(out, '{');
    let ghost t0 = seq!['{'];
    assert(out@ == start + t0);

    let ghost o = out@;
    write_field_start(out, true, level, "\"mediaType\": ");
    write_json_str(out, d.media_type.as_str());
    let ghost t1 = t0 + field_text(true, lv, "\"mediaType\": "@, json_str(dv.media_type));
    proof {
        lemma_concat3(o, item_sep(true) + indent(lv + 1) + "\"mediaType\": "@, json_str(dv.media_type));
        lemma_concat3(start, t0, field_text(true, lv, "\"mediaType\": "@, json_str(dv.media_type)));
    }
    assert(out@ == start + t1);

    let ghost o = out@;
    write_field_start(out, false, level, "\"digest\": ");
    write_json_str(out, d.digest.as_str());
    let ghost t2 = t1 + field_text(false, lv, "\"digest\": "@, json_str(dv.digest));
    proof {
        lemma_concat3(o, item_sep(false) + indent(lv + 1) + "\"digest\": "@, json_str(dv.digest));
        lemma_concat3(start, t1, field_text(false, lv, "\"digest\": "@, json_str(dv.digest)));
    }
    assert(out@ == start + t2);

    let ghost o = out@;
    write_field_start(out, false, level, "\"size\": ");
    write_int(out, d.size);
    let ghost t3 = t2 + field_text(false, lv, "\"size\": "@, int_text(dv.size));
    proof {
        lemma_concat3(o, item_sep(false) + indent(lv + 1) + "\"size\": "@, int_text(dv.size));
        lemma_concat3(start, t2, field_text(false, lv, "\"size\": "@, int_text(dv.size)));
    }
    assert(out@ == start + t3);

    let ghost o = out@;
    match &d.annotations {
        None => {
            assert(out@ == o + annotations_text(dv.annotations, lv));
        },
        Some(pairs) => {
            write_field_start(out, false, level, "\"annotations\": ");
            write_pair_object(out, pairs, level + 1);
            proof {
                lemma_concat3(
                    o,
                    item_sep(false) + indent(lv + 1) + "\"annotations\": "@,
                    pair_object_text(pairs.deep_view(), lv + 1),
                );
            }
        },
    }
    let ghost t4 = t3 + annotations_text(dv.annotations, lv);
    proof {
        lemma_concat3(start, t3, annotations_text(dv.annotations, lv));
    }
    assert(out@ == start + t4);

    let ghost o = out@;
    write_close(out, level);
    proof {
        lemma_concat3(start, t4, close_text(lv));
    }
}

/// Writes a field whose value is a JSON string.
pub fn write_str_field(out: &mut String, first: bool, level: usize, key: &str, value: &str)
    requires
        level < 1000,
    ensures
        final(out)@ == old(out)@ + field_text(first, level as nat, key@, json_str(value@)),
{
    let ghost o = out@;
    write_field_start(out, first, level, key);
    write_json_str(out, value);
    proof {
        lemma_concat3(o, item_sep(first) + indent((level + 1) as nat) + key@, json_str(value@));
    }
}

/// Writes a field whose value is a pretty array of strings.
pub fn write_str_array_field(out: &mut String, first: bool, level: usize, key: &str, items: &Vec<String>)
    requires
        level < 900,
    ensures
        final(out)@ == old(out)@ + field_text(
            first,
            level as nat,
            key@,
            str_array_text(items.deep_view(), (level + 1) as nat),
        ),
{
    let ghost o = out@;
    write_field_start(out, first, level, key);
    write_str_array(out, items, level + 1);
    proof {
        lemma_concat3(
            o,
            item_sep(first) + indent((level + 1) as nat) + key@,
            str_array_text(items.deep_view(), (level + 1) as nat),
        );
    }
}

/// The items of a pretty array of descriptors.
pub open spec fn descriptor_items_text(ds: Seq<DescriptorView>, level: nat) -> Seq<char>
    decreases ds.len(),
{
    if ds.len() == 0 {
        Seq::empty()
    } else {
        descriptor_items_text(ds.drop_last(), level) + item_sep(ds.len() == 1) + indent(level)
            + descriptor_text(ds.last(), level)
    }
}

/// A pretty array of descriptors whose bracket sits at `level`.
pub open spec fn descriptor_array_text(ds: Seq<DescriptorView>, level: nat) -> Seq<char> {
    if ds.len() == 0 {
        seq!['[', ']']
    } else {
        seq!['['] + descriptor_items_text(ds, level + 1) + seq!['\n'] + indent(level) + seq![']']
    }
}

/// Appends a pretty array of descriptors.
pub fn write_descriptor_array(out: &mut String, ds: &Vec<OciDescriptor>, level: usize)
    requires
        level < 800,
    ensures
        final(out)@ == old(out)@ + descriptor_array_text(
            ds@.map_values(|d: OciDescriptor| d@),
            level as nat,
        ),
{
    let ghost start = out@;
    let ghost view = ds@.map_values(|d: OciDescriptor| d@);
    if ds.len() == 0 {
        push_char(out, '[');
        push_char(out, ']');
        assert(out@ =~= start + descriptor_array_text(view, level as nat));
        return;
    }
    push_char(out, '[');
    let mut i: usize = 0;
    while i < ds.len()
        invariant
            i <= ds@.len(),
            level < 800,
            view == ds@.map_values(|d: OciDescriptor| d@),
            out@ == start + seq!['['] + descriptor_items_text(view.subrange(0, i as int), (level + 1) as nat),
        decreases ds@.len() - i,
    {
        let ghost o = out@;
        if i == 0 {
            push_char(out, '\n');
        } else {
            push_char(out, ',');
            push_char(out, '\n');
        }
        write_indent(out, level + 1);
        let ghost head = out@;
        write_descriptor(out, &ds[i], level + 1);
        proof {
            let sub = view.subrange(0, i + 1);
            assert(sub.drop_last() =~= view.subrange(0, i as int));
            assert(sub.last() == ds@[i as int]@);
            let lv1 = (level + 1) as nat;
            assert(head =~= o + (item_sep(i == 0) + indent(lv1)));
            lemma_concat3(o, item_sep(i == 0) + indent(lv1), descriptor_text(ds@[i as int]@, lv1));
            lemma_concat3(
                start + seq!['['],
                descriptor_items_text(view.subrange(0, i as int), lv1),
                item_sep(i == 0) + indent(lv1) + descriptor_text(ds@[i as int]@, lv1),
            );
            assert(descriptor_items_text(sub, lv1) =~= descriptor_items_text(view.subrange(0, i as int), lv1)
                + (item_sep(i == 0) + indent(lv1) + descriptor_text(ds@[i as int]@, lv1)));
        }
        i = i + 1;
    }
    assert(view.subrange(0, i as int) =~= view);
    let ghost o = out@;
    push_char(out, '\n');
    write_indent(out, level);
    push_char(out, ']');
    assert(out@ =~= o + (seq!['\n'] + indent(level as nat) + seq![']']));
    proof {
        lemma_concat3(
            start + seq!['['] + descriptor_items_text(view, (level + 1) as nat),
            seq!['\n'] + indent(level as nat),
            seq![']'],
        );
    }
    assert(out@ =~= start + descriptor_array_text(view, level as nat));
}

/// The manifest document exactly as it is served.
pub open spec fn manifest_text(m: ManifestView) -> Seq<char> {
    seq!['{'] + field_text(true, 0, "\"schemaVersion\": "@, decimal(m.schema_version))
        + field_text(false, 0, "\"mediaType\": "@, json_str(m.media_type))
        + field_text(false, 0, "\"config\": "@, descriptor_text(m.config, 1))
        + field_text(false, 0, "\"layers\": "@, descriptor_array_text(m.layers, 1))
        + close_text(0)
}

impl OciManifest {
    /// The manifest as pretty-printed JSON bytes.
    pub fn to_json(&self) -> (bytes: Vec<u8>)
        requires
            self@.wf(),
        ensures
            bytes@ == encode_utf8(manifest_text(self@)),
    {
        let mut out = String::new();
        let ghost start = out@;
        let ghost m = self@;
        push_char(&mut out, '{');
        let ghost t0 = seq!['{'];
        assert(out@ =~= t0);

        let ghost o = out@;
        write_field_start(&mut out, true, 0, "\"schemaVersion\": ");
        write_decimal(&mut out, self.schema_version as u64);
        let ghost t1 = t0 + field_text(true, 0, "\"schemaVersion\": "@, decimal(m.schema_version));
        proof {
            lemma_concat3(o, item_sep(true) + indent(1) + "\"schemaVersion\": "@, decimal(m.schema_version));
        }
        assert(out@ == t1);

        write_str_field(&mut out, false, 0, "\"mediaType\": ", self.media_type.as_str());
        let ghost t2 = t1 + field_text(false, 0, "\"mediaType\": "@, json_str(m.media_type));
        assert(out@ == t2);

        let ghost o = out@;
        write_field_start(&mut out, false, 0, "\"config\": ");
        write_descriptor(&mut out, &self.config, 1);
        let ghost t3 = t2 + field_text(false, 0, "\"config\": "@, descriptor_text(m.config, 1));
        proof {
            lemma_concat3(o, item_sep(false) + indent(1) + "\"config\": "@, descriptor_text(m.config, 1));
        }
        assert(out@ == t3);

        let ghost o = out@;
        write_field_start(&mut out, false, 0, "\"layers\": ");
        write_descriptor_array(&mut out, &self.layers, 1);
        let ghost t4 = t3 + field_text(false, 0, "\"layers\": "@, descriptor_array_text(m.layers, 1));
        proof {
            lemma_concat3(o, item_sep(false) + indent(1) + "\"layers\": "@, descriptor_array_text(m.layers, 1));
        }
        assert(out@ == t4);

        write_close(&mut out, 0);
        assert(out@ == manifest_text(m));
        out.as_str().as_bytes_vec()
    }
}

/// The optional `target` field of component information.
pub open spec fn target_text(target: Option<Seq<char>>, level: nat) -> Seq<char> {
    match target {
        None => Seq::empty(),
        Some(t) => field_text(false, level, "\"target\": "@, json_str(t)),
    }
}

/// Component information as serialized into the config, its brace at `level`.
pub open spec fn component_text(c: ComponentInfoView, level: nat) -> Seq<char> {
    seq!['{'] + field_text(true, level, "\"exports\": "@, str_array_text(c.exports, level + 1))
        + field_text(false, level, "\"imports\": "@, str_array_text(c.imports, level + 1))
        + target_text(c.target, level) + close_text(level)
}

/// Appends component information as pretty JSON.
pub fn write_component(out: &mut String, c: &ComponentInfo, level: usize)
    requires
        level < 800,
    ensures
        final(out)@ == old(out)@ + component_text(c@, level as nat),
{
    let ghost start = out@;
    let ghost cv = c@;
    let ghost lv = level as nat;
    push_char(out, '{');
    let ghost t0 = seq!['{'];
    write_str_array_field(out, true, level, "\"exports\": ", &c.exports);
    let ghost t1 = t0 + field_text(true, lv, "\"exports\": "@, str_array_text(cv.exports, lv + 1));
    proof {
        lemma_concat3(start, t0, field_text(true, lv, "\"exports\": "@, str_array_text(cv.exports, lv + 1)));
    }
    write_str_array_field(out, false, level, "\"imports\": ", &c.imports);
    let ghost t2 = t1 + field_text(false, lv, "\"imports\": "@, str_array_text(cv.imports, lv + 1));
    proof {
        lemma_concat3(start, t1, field_text(false, lv, "\"imports\": "@, str_array_text(cv.imports, lv + 1)));
    }
    match &c.target {
        None => {},
        Some(t) => {
            write_str_field(out, false, level, "\"target\": ", t.as_str());
        },
    }
    let ghost t3 = t2 + target_text(cv.target, lv);
    proof {
        lemma_concat3(start, t2, target_text(cv.target, lv));
    }
    write_close(out, level);
    proof {
        lemma_concat3(start, t3, close_text(lv));
    }
}

/// The optional `component` field of the config.
pub open spec fn component_field_text(component: Option<ComponentInfoView>) -> Seq<char> {
    match component {
        None => Seq::empty(),
        Some(c) => field_text(false, 0, "\"component\": "@, component_text(c, 1)),
    }
}

/// The config document exactly as it is served.
pub open spec fn config_text(c: WasmConfigView) -> Seq<char> {
    seq!['{'] + field_text(true, 0, "\"created\": "@, json_str(c.created))
        + field_text(false, 0, "\"architecture\": "@, json_str(c.architecture))
        + field_text(false, 0, "\"os\": "@, json_str(c.os))
        + field_text(false, 0, "\"layerDigests\": "@, str_array_text(c.layer_digests, 1))
        + component_field_text(c.component) + close_text(0)
}

impl WasmConfig {
    /// The config as pretty-printed JSON bytes.
    pub fn to_json(&self) -> (bytes: Vec<u8>)
        ensures
            bytes@ == encode_utf8(config_text(self@)),
    {
        let mut out = String::new();
        let ghost c = self@;
        push_char(&mut out, '{');
        let ghost t0 = seq!['{'];
        assert(out@ =~= t0);
        write_str_field(&mut out, true, 0, "\"created\": ", self.created.as_str());
        let ghost t1 = t0 + field_text(true, 0, "\"created\": "@, json_str(c.created));
        write_str_field(&mut out, false, 0, "\"architecture\": ", self.architecture.as_str());
        let ghost t2 = t1 + field_text(false, 0, "\"architecture\": "@, json_str(c.architecture));
        write_str_field(&mut out, false, 0, "\"os\": ", self.os.as_str());
        let ghost t3 = t2 + field_text(false, 0, "\"os\": "@, json_str(c.os));
        write_str_array_field(&mut out, false, 0, "\"layerDigests\": ", &self.layer_digests);
        let ghost t4 = t3 + field_text(false, 0, "\"layerDigests\": "@, str_array_text(c.layer_digests, 1));
        assert(out@ == t4);
        let ghost o = out@;
        match &self.component {
            None => {},
            Some(ci) => {
                write_field_start(&mut out, false, 0, "\"component\": ");
                write_component(&mut out, ci, 1);
                proof {
                    lemma_concat3(o, item_sep(false) + indent(1) + "\"component\": "@, component_text(ci@, 1));
                }
            },
        }
        let ghost t5 = t4 + component_field_text(c.component);
        assert(out@ == t5);
        write_close(&mut out, 0);
        assert(out@ == config_text(c));
        out.as_str().as_bytes_vec()
    }
}

/// Extract metadata (namespace, name, version) from WASM component.
/// If `filename_fallback` is provided, it is used when metadata has no name.
pub fn extract_metadata(wasm_bytes: &[u8], filename_fallback: Option<&str>) -> (r: Result<
    (String, String, String),
    OciError,
>)
    ensures
        match wasm_name_and_version(wasm_bytes@) {
            None => r matches Err(OciError::InvalidMetadata(_)),
            Some((name, version)) => match identity_of(name, version, opt_str_view(filename_fallback)) {
                Some((ns, n, v)) => r matches Ok((rns, rn, rv)) && rns@ == ns && rn@ == n && rv@ == v,
                None => r matches Err(OciError::MissingName),
            },
        },
        r matches Ok((_, _, rv)) ==> (wasm_name_and_version(wasm_bytes@) matches Some((_, recorded))
            && rv@ == match recorded {
            Some(v) => v,
            None => "0.0.0"@,
        }),
{
    match read_name_and_version(wasm_bytes) {
        Ok((name, version)) => component_identity(name, version, filename_fallback),
        Err(e) => Err(OciError::InvalidMetadata(error_text(&e))),
    }
}

/// The config of a component layer created at `created`.
pub open spec fn config_view_of(created: Seq<char>, wasm_digest: Seq<char>, info: ComponentInfoView) -> WasmConfigView {
    WasmConfigView {
        created: created,
        architecture: "wasm"@,
        os: "wasip2"@,
        layer_digests: seq![wasm_digest],
        component: Some(info),
    }
}

/// Config JSON and its digest for a layer, given the creation time.
pub fn config_document(created: String, wasm_digest: &str, info: ComponentInfo) -> (r: (Vec<u8>, String))
    ensures
        r.0@ == encode_utf8(config_text(config_view_of(created@, wasm_digest@, info@))),
        r.1@ == digest_of(r.0@),
{
    let ghost iv = info@;
    let mut layer_digests: Vec<String> = Vec::new();
    layer_digests.push(wasm_digest.to_owned());
    let config = WasmConfig {
        created,
        architecture: "wasm".to_owned(),
        os: "wasip2".to_owned(),
        layer_digests,
        component: Some(info),
    };
    assert(config.layer_digests.deep_view() =~= seq![wasm_digest@]);
    let json = config.to_json();
    let digest = sha256_digest(json.as_slice());
    (json, digest)
}

/// The config JSON that `generate_config` produces for a decodable binary:
/// the config of its layer `wasm_digest` with the binary's component
/// information (`info_of`), created at `CONFIG_CREATED`.
pub open spec fn config_json_of(wasm_digest: Seq<char>, wasm_bytes: Seq<u8>) -> Seq<u8> {
    encode_utf8(config_text(config_view_of(CONFIG_CREATED@, wasm_digest, info_of(wasm_bytes))))
}

/// Generate config JSON and its digest from WASM bytes, deterministically:
/// the same bytes and layer digest always give the same config.
pub fn generate_config(wasm_bytes: &[u8], wasm_digest: &str) -> (r: Result<(Vec<u8>, String), OciError>)
    ensures
        match wasm_decoded_kind(wasm_bytes@) {
            None => r matches Err(OciError::InvalidComponent(_)),
            Some(_) => r matches Ok((json, digest)) && json@ == config_json_of(wasm_digest@, wasm_bytes@)
                && digest@ == digest_of(json@),
        },
{
    let info = extract_component_info(wasm_bytes)?;
    let (json, digest) = config_document(CONFIG_CREATED.to_owned(), wasm_digest, info);
    Ok((json, digest))
}

/// The manifest of a component: one config and one WebAssembly layer,
/// titled so that pulling clients know the file name.
pub open spec fn manifest_view_of(
    wasm_size: int,
    wasm_digest: Seq<char>,
    config_size: int,
    config_digest: Seq<char>,
    layer_title: Seq<char>,
) -> ManifestView {
    ManifestView {
        schema_version: 2,
        media_type: WASM_MANIFEST_MEDIA_TYPE@,
        config: DescriptorView {
            media_type: WASM_CONFIG_MEDIA_TYPE@,
            digest: config_digest,
            size: (config_size as i64) as int,
            annotations: None,
        },
        layers: seq![
            DescriptorView {
                media_type: WASM_LAYER_MEDIA_TYPE@,
                digest: wasm_digest,
                size: (wasm_size as i64) as int,
                annotations: Some(seq![("org.opencontainers.image.title"@, layer_title)]),
            },
        ],
    }
}

/// Generate manifest JSON and its digest.
pub fn generate_manifest(
    wasm_size: usize,
    wasm_digest: &str,
    config_size: usize,
    config_digest: &str,
    layer_title: &str,
) -> (r: Result<(Vec<u8>, String), OciError>)
    ensures
        r matches Ok((json, digest)) && json@ == encode_utf8(
            manifest_text(
                manifest_view_of(
                    wasm_size as int,
                    wasm_digest@,
                    config_size as int,
                    config_digest@,
                    layer_title@,
                ),
            ),
        ) && digest@ == digest_of(json@),
{
    let mut layer_annotations: Vec<(String, String)> = Vec::new();
    layer_annotations.push(("org.opencontainers.image.title".to_owned(), layer_title.to_owned()));
    let mut layers: Vec<OciDescriptor> = Vec::new();
    layers.push(
        OciDescriptor {
            media_type: WASM_LAYER_MEDIA_TYPE.to_owned(),
            digest: wasm_digest.to_owned(),
            size: wasm_size as i64,
            annotations: Some(layer_annotations),
        },
    );
    let manifest = OciManifest {
        schema_version: 2,
        media_type: WASM_MANIFEST_MEDIA_TYPE.to_owned(),
        config: OciDescriptor {
            media_type: WASM_CONFIG_MEDIA_TYPE.to_owned(),
            digest: config_digest.to_owned(),
            size: config_size as i64,
            annotations: None,
        },
        layers,
    };
    let ghost expected = manifest_view_of(
        wasm_size as int,
        wasm_digest@,
        config_size as int,
        config_digest@,
        layer_title@,
    );
    assert(manifest@.layers[0].annotations =~= expected.layers[0].annotations);
    assert(manifest@.layers =~= expected.layers);
    assert(manifest@ == expected);
    assert(manifest@.wf());
    let json = manifest.to_json();
    let digest = sha256_digest(json.as_slice());
    Ok((json, digest))
}

/// What `load_component` produces from a binary whose metadata gives
/// `namespace`, `name` and `version` and that decodes: the binary itself,
/// every blob's digest the SHA-256 of its bytes, the config as
/// `generate_config` writes it, and the manifest referencing both by digest and size, its layer titled `<name>.wasm`.
pub open spec fn loaded_entry(
    e: EntryView,
    wasm_bytes: Seq<u8>,
    namespace: Seq<char>,
    name: Seq<char>,
    version: Seq<char>,
) -> bool {
    &&& e.wasm_bytes == wasm_bytes
    &&& e.wasm_digest == digest_of(wasm_bytes)
    &&& e.namespace == namespace
    &&& e.name == name
    &&& e.version == version
    &&& e.config_digest == digest_of(e.config_json)
    &&& e.config_json == config_json_of(e.wasm_digest, wasm_bytes)
    &&& e.manifest_json == encode_utf8(
        manifest_text(
            manifest_view_of(
                wasm_bytes.len() as int,
                e.wasm_digest,
                e.config_json.len() as int,
                e.config_digest,
                name + ".wasm"@,
            ),
        ),
    )
    &&& e.manifest_digest == digest_of(e.manifest_json)
}

/// Load a WASM binary and create a `ComponentEntry` with all OCI artifacts.
/// If `filename_hint` is provided, it is the name when metadata has none.
/// Errors come in this order: unreadable metadata, no name, undecodable binary.
pub fn load_component(wasm_bytes: Vec<u8>, filename_hint: Option<&str>) -> (r: Result<ComponentEntry, OciError>)
    ensures
        match wasm_name_and_version(wasm_bytes@) {
            None => r matches Err(OciError::InvalidMetadata(_)),
            Some((n, v)) => match identity_of(n, v, opt_str_view(filename_hint)) {
                None => r matches Err(OciError::MissingName),
                Some((namespace, name, version)) => match wasm_decoded_kind(wasm_bytes@) {
                    None => r matches Err(OciError::InvalidComponent(_)),
                    Some(_) => r matches Ok(e) && loaded_entry(e@, wasm_bytes@, namespace, name, version),
                },
            },
        },
        r matches Ok(e) ==> e@.manifest_json == encode_utf8(
            manifest_text(
                manifest_view_of(
                    wasm_bytes@.len() as int,
                    digest_of(wasm_bytes@),
                    e@.config_json.len() as int,
                    digest_of(e@.config_json),
                    e@.name + ".wasm"@,
                ),
            ),
        ) && e@.config_json == config_json_of(digest_of(wasm_bytes@), wasm_bytes@)
            && e@.wasm_bytes == wasm_bytes@,
{
    let (namespace, name, version) = extract_metadata(wasm_bytes.as_slice(), filename_hint)?;
    let wasm_digest = sha256_digest(wasm_bytes.as_slice());
    let (config_json, config_digest) = generate_config(wasm_bytes.as_slice(), wasm_digest.as_str())?;
    let mut layer_title = name.clone();
    layer_title.append(".wasm");
    let (manifest_json, manifest_digest) = generate_manifest(
        wasm_bytes.len(),
        wasm_digest.as_str(),
        config_json.len(),
        config_digest.as_str(),
        layer_title.as_str(),
    )?;
    Ok(
        ComponentEntry {
            wasm_bytes,
            wasm_digest,
            config_json,
            config_digest,
            manifest_json,
            manifest_digest,
            namespace,
            name,
            version,
        },
    )
}

/// A loaded entry's manifest titles its layer `<name>.wasm`, whatever the
/// version: the manifest is exactly the one that `generate_manifest` writes
/// for the binary, the config and that title.
pub proof fn lemma_loaded_manifest_title(
    e: EntryView,
    wasm_bytes: Seq<u8>,
    namespace: Seq<char>,
    name: Seq<char>,
    version: Seq<char>,
)
    requires
        loaded_entry(e, wasm_bytes, namespace, name, version),
    ensures
        e.manifest_json == encode_utf8(
            manifest_text(
                manifest_view_of(
                    wasm_bytes.len() as int,
                    digest_of(wasm_bytes),
                    e.config_json.len() as int,
                    digest_of(e.config_json),
                    name + ".wasm"@,
                ),
            ),
        ),
        manifest_view_of(
            wasm_bytes.len() as int,
            digest_of(wasm_bytes),
            e.config_json.len() as int,
            digest_of(e.config_json),
            name + ".wasm"@,
        ).layers[0].annotations == Some(seq![("org.opencontainers.image.title"@, name + ".wasm"@)]),
{
}

/// The version changes nothing in the artifacts: two entries loaded from
/// the same binary under the same namespace and name, whatever their
/// versions, have the same config and manifest bytes and digests.
pub proof fn lemma_loaded_version_independent(
    e1: EntryView,
    e2: EntryView,
    wasm_bytes: Seq<u8>,
    namespace: Seq<char>,
    name: Seq<char>,
    v1: Seq<char>,
    v2: Seq<char>,
)
    requires
        loaded_entry(e1, wasm_bytes, namespace, name, v1),
        loaded_entry(e2, wasm_bytes, namespace, name, v2),
    ensures
        e1.wasm_digest == e2.wasm_digest,
        e1.config_json == e2.config_json,
        e1.config_digest == e2.config_digest,
        e1.manifest_json == e2.manifest_json,
        e1.manifest_digest == e2.manifest_digest,
{
}

/// Loading is deterministic: two entries loaded from the same binary with
/// the same identity are equal, config and manifest bytes and digests
/// included.
pub proof fn lemma_loaded_entry_deterministic(
    e1: EntryView,
    e2: EntryView,
    wasm_bytes: Seq<u8>,
    namespace: Seq<char>,
    name: Seq<char>,
    version: Seq<char>,
)
    requires
        loaded_entry(e1, wasm_bytes, namespace, name, version),
        loaded_entry(e2, wasm_bytes, namespace, name, version),
    ensures
        e1 == e2,
{
}

/// A loaded entry addresses each of its blobs by the blob's digest.
pub proof fn lemma_loaded_entry_digests(
    e: EntryView,
    wasm_bytes: Seq<u8>,
    namespace: Seq<char>,
    name: Seq<char>,
    version: Seq<char>,
)
    requires
        loaded_entry(e, wasm_bytes, namespace, name, version),
    ensures
        crate::registry::digests_hold(e),
{
}

} // verus!
