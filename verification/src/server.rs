//! What the registry answers on each OCI endpoint: status, headers and
//! body, decided from the registry's contents. The HTTP plumbing that sends
//! these answers lives outside the library.

use std::sync::Arc;

use vstd::prelude::*;

use crate::oci::{WASM_CONFIG_MEDIA_TYPE, WASM_LAYER_MEDIA_TYPE, WASM_MANIFEST_MEDIA_TYPE};
use crate::digest::digest_of;
use crate::metadata::find_char;
use crate::registry::{blob_bytes, digests_hold, BlobType, ComponentEntry, EntryView, Registry, RegistryView};
use crate::routes::error_codes;
use crate::order::{lex_less, str_less, sorted};
use crate::text::{json_str, push_char, write_json_str};
use vstd::slice::slice_to_vec;

verus! {

/// Shared application state.
pub struct AppState {
    pub registry: Registry,
}

/// An HTTP answer: status, the optional `Content-Type`,
/// `Docker-Content-Digest` and `Content-Length` headers, and the body.
#[derive(Debug)]
pub struct HttpReply {
    pub status: u16,
    pub content_type: Option<String>,
    pub digest: Option<String>,
    pub content_length: Option<usize>,
    pub body: Vec<u8>,
}

pub struct ReplyView {
    pub status: nat,
    pub content_type: Option<Seq<char>>,
    pub digest: Option<Seq<char>>,
    pub content_length: Option<nat>,
    pub body: Seq<u8>,
}

impl View for HttpReply {
    type V = ReplyView;

    open spec fn view(&self) -> ReplyView {
        ReplyView {
            status: self.status as nat,
            content_type: self.content_type.deep_view(),
            digest: self.digest.deep_view(),
            content_length: match self.content_length {
                Some(n) => Some(n as nat),
                None => None,
            },
            body: self.body@,
        }
    }
}

/// The JSON error document of the OCI spec, with one error whose `code`
/// and `message` are JSON strings (escaped as `json_str` writes them).
pub open spec fn error_body_text(code: Seq<char>, message: Seq<char>) -> Seq<char> {
    "{\"errors\":[{\"code\":"@ + json_str(code) + ",\"message\":"@ + json_str(message) + "}]}"@
}

/// Builds the JSON error document of the OCI spec: an `errors` array with
/// one object holding `code` and `message` as JSON strings.
pub fn error_body(code: &str, message: &str) -> (body: String)
    ensures
        body@ == error_body_text(code@, message@),
{
    let mut body = "{\"errors\":[{\"code\":".to_owned();
    write_json_str(&mut body, code);
    body.append(",\"message\":");
    write_json_str(&mut body, message);
    body.append("}]}");
    body
}

/// An error answer with the JSON error document.
pub open spec fn error_reply_view(status: nat, code: Seq<char>, message: Seq<char>) -> ReplyView {
    ReplyView {
        status: status,
        content_type: Some("application/json"@),
        digest: None,
        content_length: None,
        body: vstd::utf8::encode_utf8(error_body_text(code, message)),
    }
}

/// Build an OCI-compliant error response.
pub fn error_response(status: u16, code: &str, message: &str) -> (r: HttpReply)
    ensures
        r@ == error_reply_view(status as nat, code@, message@),
{
    let body = error_body(code, message);
    HttpReply {
        status,
        content_type: Some("application/json".to_owned()),
        digest: None,
        content_length: None,
        body: body.as_str().as_bytes_vec(),
    }
}

/// The message of an unsupported operation.
pub open spec fn unsupported_message(operation: Seq<char>) -> Seq<char> {
    operation + " is not supported by this registry"@
}

/// Helper for unsupported operation responses: 405 with `UNSUPPORTED`.
pub fn unsupported_response(operation: &str) -> (r: HttpReply)
    ensures
        r@ == error_reply_view(405, error_codes::UNSUPPORTED@, unsupported_message(operation@)),
{
    let mut message = operation.to_owned();
    message.append(" is not supported by this registry");
    error_response(405, error_codes::UNSUPPORTED, message.as_str())
}

/// end-1: OCI version check: 200 with an empty JSON object.
pub fn version_check() -> (r: HttpReply)
    ensures
        r@.status == 200,
        r@.content_type == Some("application/json"@),
        r@.digest is None,
        r@.content_length is None,
        r@.body == vstd::utf8::encode_utf8("{}"@),
{
    HttpReply {
        status: 200,
        content_type: Some("application/json".to_owned()),
        digest: None,
        content_length: None,
        body: "{}".as_bytes_vec(),
    }
}

/// The media type a blob is served with.
pub open spec fn blob_media_type(t: BlobType) -> Seq<char> {
    match t {
        BlobType::Wasm => WASM_LAYER_MEDIA_TYPE@,
        BlobType::Config => WASM_CONFIG_MEDIA_TYPE@,
        BlobType::Manifest => WASM_MANIFEST_MEDIA_TYPE@,
    }
}

/// A successful answer carrying (or, for HEAD, describing) content.
pub open spec fn content_reply_view(
    media_type: Seq<char>,
    digest: Seq<char>,
    data: Seq<u8>,
    head: bool,
) -> ReplyView {
    ReplyView {
        status: 200,
        content_type: Some(media_type),
        digest: Some(digest),
        content_length: Some(data.len()),
        body: if head {
            Seq::empty()
        } else {
            data
        },
    }
}

/// A bare 404 answer to a HEAD request.
pub open spec fn head_not_found_view() -> ReplyView {
    ReplyView { status: 404, content_type: None, digest: None, content_length: None, body: Seq::empty() }
}

/// The answer to a blob request (GET, or HEAD when `head`).
pub open spec fn blob_reply_view(reg: RegistryView, digest: Seq<char>, head: bool) -> ReplyView {
    match reg.lookup_blob(digest) {
        Some((t, e)) => content_reply_view(blob_media_type(t), digest, blob_bytes(t, e), head),
        None => if head {
            head_not_found_view()
        } else {
            error_reply_view(404, error_codes::BLOB_UNKNOWN@, "blob unknown"@)
        },
    }
}

/// The answer for a blob found in the registry.
fn blob_found(blob_type: BlobType, entry: &ComponentEntry, digest: &str, head: bool) -> (r: HttpReply)
    ensures
        r@ == content_reply_view(blob_media_type(blob_type), digest@, blob_bytes(blob_type, entry@), head),
{
    let (content_type, data) = match blob_type {
        BlobType::Wasm => (WASM_LAYER_MEDIA_TYPE, entry.wasm_bytes.as_slice()),
        BlobType::Config => (WASM_CONFIG_MEDIA_TYPE, entry.config_json.as_slice()),
        BlobType::Manifest => (WASM_MANIFEST_MEDIA_TYPE, entry.manifest_json.as_slice()),
    };
    let body = if head {
        Vec::new()
    } else {
        slice_to_vec(data)
    };
    let r = HttpReply {
        status: 200,
        content_type: Some(content_type.to_owned()),
        digest: Some(digest.to_owned()),
        content_length: Some(data.len()),
        body,
    };
    assert(r@.body =~= content_reply_view(blob_media_type(blob_type), digest@, blob_bytes(blob_type, entry@), head).body);
    r
}

/// A bare 404 answer to a HEAD request.
fn head_not_found() -> (r: HttpReply)
    ensures
        r@ == head_not_found_view(),
{
    let r = HttpReply { status: 404, content_type: None, digest: None, content_length: None, body: Vec::new() };
    assert(r@.body =~= Seq::<u8>::empty());
    r
}

/// end-2: Pull blob endpoint. (GET)
pub fn get_blob(state: &AppState, digest: &str) -> (r: HttpReply)
    ensures
        r@ == blob_reply_view(state.registry@, digest@, false),
{
    match state.registry.get_blob(digest) {
        Some((blob_type, entry)) => blob_found(blob_type, &*entry, digest, false),
        None => error_response(404, error_codes::BLOB_UNKNOWN, "blob unknown"),
    }
}

/// end-2: Pull blob endpoint. (HEAD)
pub fn head_blob(state: &AppState, digest: &str) -> (r: HttpReply)
    ensures
        r@ == blob_reply_view(state.registry@, digest@, true),
{
    match state.registry.get_blob(digest) {
        Some((blob_type, entry)) => blob_found(blob_type, &*entry, digest, true),
        None => head_not_found(),
    }
}

/// `s` begins with `prefix`.
pub open spec fn starts_with(s: Seq<char>, prefix: Seq<char>) -> bool {
    prefix.len() <= s.len() && s.subrange(0, prefix.len() as int) == prefix
}

/// Tests whether `s` begins with `prefix`.
pub fn str_starts_with(s: &str, prefix: &str) -> (b: bool)
    ensures
        b == starts_with(s@, prefix@),
{
    let n = s.unicode_len();
    let m = prefix.unicode_len();
    if m > n {
        return false;
    }
    let head = s.substring_char(0, m).to_owned();
    let p = prefix.to_owned();
    head == p
}

/// `namespace/name:reference`.
pub open spec fn tag_reference_text(namespace: Seq<char>, name: Seq<char>, reference: Seq<char>) -> Seq<char> {
    namespace + seq!['/'] + name + seq![':'] + reference
}

/// The manifest a request names: by tag (or `@digest`) reference first,
/// then, for a `sha256:` reference, the entry whose manifest has that digest.
pub open spec fn manifest_lookup(
    reg: RegistryView,
    namespace: Seq<char>,
    name: Seq<char>,
    reference: Seq<char>,
) -> Option<EntryView> {
    match reg.lookup_reference(tag_reference_text(namespace, name, reference)) {
        Some(e) => Some(e),
        None => if starts_with(reference, "sha256:"@) {
            match reg.lookup_blob(reference) {
                Some((BlobType::Manifest, e)) => Some(e),
                _ => None,
            }
        } else {
            None
        },
    }
}

/// Finds the manifest a request names (see `manifest_lookup`).
pub fn find_manifest(registry: &Registry, namespace: &str, name: &str, reference: &str) -> (r: Option<
    Arc<ComponentEntry>,
>)
    ensures
        crate::registry::opt_entry(r) == manifest_lookup(registry@, namespace@, name@, reference@),
        r matches Some(e) ==> registry@.lookup_reference(tag_reference_text(namespace@, name@, reference@))
            == Some(e@) || registry@.lookup_blob(reference@) == Some((BlobType::Manifest, e@)),
{
    let mut full_ref = namespace.to_owned();
    push_char(&mut full_ref, '/');
    full_ref.append(name);
    push_char(&mut full_ref, ':');
    full_ref.append(reference);
    assert(full_ref@ =~= tag_reference_text(namespace@, name@, reference@));
    // Try to find by tag first, then by digest
    match registry.get_by_reference(full_ref.as_str()) {
        Some(entry) => Some(entry),
        None => {
            // Maybe it's a digest reference
            if str_starts_with(reference, "sha256:") {
                match registry.get_blob(reference) {
                    Some((blob_type, entry)) => {
                        if blob_type == BlobType::Manifest {
                            Some(entry)
                        } else {
                            None
                        }
                    },
                    None => None,
                }
            } else {
                None
            }
        },
    }
}

/// The answer to a manifest request (GET, or HEAD when `head`).
pub open spec fn manifest_reply_view(
    reg: RegistryView,
    namespace: Seq<char>,
    name: Seq<char>,
    reference: Seq<char>,
    head: bool,
) -> ReplyView {
    match manifest_lookup(reg, namespace, name, reference) {
        Some(e) => content_reply_view(WASM_MANIFEST_MEDIA_TYPE@, e.manifest_digest, e.manifest_json, head),
        None => if head {
            head_not_found_view()
        } else {
            error_reply_view(404, error_codes::MANIFEST_UNKNOWN@, "manifest unknown"@)
        },
    }
}

/// The answer for a manifest found in the registry.
fn manifest_found(entry: &ComponentEntry, head: bool) -> (r: HttpReply)
    ensures
        r@ == content_reply_view(WASM_MANIFEST_MEDIA_TYPE@, entry@.manifest_digest, entry@.manifest_json, head),
{
    let data = entry.manifest_json.as_slice();
    let body = if head {
        Vec::new()
    } else {
        slice_to_vec(data)
    };
    let r = HttpReply {
        status: 200,
        content_type: Some(WASM_MANIFEST_MEDIA_TYPE.to_owned()),
        digest: Some(entry.manifest_digest.clone()),
        content_length: Some(data.len()),
        body,
    };
    assert(r@.body =~= content_reply_view(WASM_MANIFEST_MEDIA_TYPE@, entry@.manifest_digest, entry@.manifest_json, head).body);
    r
}

/// end-3: Manifest endpoints (GET)
pub fn get_manifest(state: &AppState, namespace: &str, name: &str, reference: &str) -> (r: HttpReply)
    ensures
        r@ == manifest_reply_view(state.registry@, namespace@, name@, reference@, false),
{
    match find_manifest(&state.registry, namespace, name, reference) {
        Some(entry) => manifest_found(&*entry, false),
        None => error_response(404, error_codes::MANIFEST_UNKNOWN, "manifest unknown"),
    }
}

/// end-3: Manifest endpoints (HEAD)
pub fn head_manifest(state: &AppState, namespace: &str, name: &str, reference: &str) -> (r: HttpReply)
    ensures
        r@ == manifest_reply_view(state.registry@, namespace@, name@, reference@, true),
{
    match find_manifest(&state.registry, namespace, name, reference) {
        Some(entry) => manifest_found(&*entry, true),
        None => head_not_found(),
    }
}

/// Whether a tag is listed after `last`.
pub open spec fn listed_after(tag: Seq<char>, last: Option<Seq<char>>) -> bool {
    match last {
        Some(l) => lex_less(l, tag),
        None => true,
    }
}

/// The tags that come lexically after `last` (all when there is none), in order.
pub open spec fn tags_after(tags: Seq<Seq<char>>, last: Option<Seq<char>>) -> Seq<Seq<char>>
    decreases tags.len(),
{
    if tags.len() == 0 {
        Seq::empty()
    } else {
        tags_after(tags.drop_last(), last) + if listed_after(tags.last(), last) {
            seq![tags.last()]
        } else {
            Seq::empty()
        }
    }
}

/// At most `n` items from the front (all when there is no limit).
pub open spec fn take_limit(s: Seq<Seq<char>>, n: Option<nat>) -> Seq<Seq<char>> {
    match n {
        Some(k) => if k < s.len() {
            s.take(k as int)
        } else {
            s
        },
        None => s,
    }
}

/// One page of tags: those after `last`, at most `n` of them.
pub open spec fn paginate(tags: Seq<Seq<char>>, n: Option<nat>, last: Option<Seq<char>>) -> Seq<Seq<char>> {
    take_limit(tags_after(tags, last), n)
}

/// The optional limit as a natural number.
pub open spec fn opt_nat(n: Option<usize>) -> Option<nat> {
    match n {
        Some(k) => Some(k as nat),
        None => None,
    }
}

/// Apply pagination per spec (end-8b): `last` starts after this tag
/// (exclusive), `n` limits the number of results.
pub fn paginate_tags(tags: &Vec<String>, n: Option<usize>, last: Option<&str>) -> (page: Vec<String>)
    ensures
        page.deep_view() == paginate(tags.deep_view(), opt_nat(n), crate::metadata::opt_str_view(last)),
        page@.len() == match n {
            Some(k) => if (k as int) < tags_after(tags.deep_view(), crate::metadata::opt_str_view(last)).len() {
                k as int
            } else {
                tags_after(tags.deep_view(), crate::metadata::opt_str_view(last)).len() as int
            },
            None => tags_after(tags.deep_view(), crate::metadata::opt_str_view(last)).len() as int,
        },
        forall|i: int|
            0 <= i < page@.len() ==> #[trigger] page@[i]@ == tags_after(
                tags.deep_view(),
                crate::metadata::opt_str_view(last),
            )[i],
{
    let ghost tv = tags.deep_view();
    let ghost lv = crate::metadata::opt_str_view(last);
    let ghost nv = opt_nat(n);
    let mut page: Vec<String> = Vec::new();
    let mut i: usize = 0;
    while i < tags.len()
        invariant
            i <= tags@.len(),
            tv == tags.deep_view(),
            tv.len() == tags@.len(),
            lv == crate::metadata::opt_str_view(last),
            nv == opt_nat(n),
            page.deep_view() == take_limit(tags_after(tv.subrange(0, i as int), lv), nv),
        decreases tags@.len() - i,
    {
        let tag = &tags[i];
        let keep = match last {
            Some(l) => str_less(l, tag.as_str()),
            None => true,
        };
        let ghost kept = tags_after(tv.subrange(0, i as int), lv);
        proof {
            let sub = tv.subrange(0, i + 1);
            assert(sub.drop_last() =~= tv.subrange(0, i as int));
            assert(sub.last() == tag@);
        }
        if keep {
            let room = match n {
                Some(k) => page.len() < k,
                None => true,
            };
            if room {
                let ghost before = page.deep_view();
                page.push(tag.clone());
                assert(page.deep_view() =~= before.push(tag@));
                assert(take_limit(kept.push(tag@), nv) =~= before.push(tag@));
            } else {
                assert(take_limit(kept.push(tag@), nv) =~= take_limit(kept, nv));
            }
            assert(tags_after(tv.subrange(0, i + 1), lv) =~= kept.push(tag@));
        } else {
            assert(tags_after(tv.subrange(0, i + 1), lv) =~= kept);
        }
        i = i + 1;
    }
    assert(tv.subrange(0, i as int) =~= tv);
    proof {
        lemma_page_prefix(tv, nv, lv);
        assert forall|j: int| 0 <= j < page@.len() implies #[trigger] page@[j]@ == tags_after(tv, lv)[j] by {
            assert(page.deep_view()[j] == page@[j]@);
        }
    }
    page
}

/// Compact JSON items of an array of strings.
pub open spec fn compact_str_items(items: Seq<Seq<char>>) -> Seq<char>
    decreases items.len(),
{
    if items.len() == 0 {
        Seq::empty()
    } else {
        compact_str_items(items.drop_last()) + if items.len() == 1 {
            Seq::empty()
        } else {
            seq![',']
        } + json_str(items.last())
    }
}

/// The tags list document, as `serde_json::to_string` writes it.
pub open spec fn tags_body_text(repository: Seq<char>, tags: Seq<Seq<char>>) -> Seq<char> {
    "{\"name\":"@ + json_str(repository) + ",\"tags\":["@ + compact_str_items(tags) + "]}"@
}

/// Writes the tags list document.
pub fn tags_list_body(repository: &str, tags: &Vec<String>) -> (body: String)
    ensures
        body@ == tags_body_text(repository@, tags.deep_view()),
{
    let ghost tv = tags.deep_view();
    let mut body = "{\"name\":".to_owned();
    write_json_str(&mut body, repository);
    body.append(",\"tags\":[");
    let ghost head = body@;
    let mut i: usize = 0;
    while i < tags.len()
        invariant
            i <= tags@.len(),
            tv == tags.deep_view(),
            tv.len() == tags@.len(),
            body@ == head + compact_str_items(tv.subrange(0, i as int)),
        decreases tags@.len() - i,
    {
        let ghost before = body@;
        if i > 0 {
            push_char(&mut body, ',');
        }
        write_json_str(&mut body, tags[i].as_str());
        proof {
            let sub = tv.subrange(0, i + 1);
            assert(sub.drop_last() =~= tv.subrange(0, i as int));
            assert(sub.last() == tags@[i as int]@);
            assert(body@ =~= head + compact_str_items(sub));
        }
        i = i + 1;
    }
    assert(tv.subrange(0, i as int) =~= tv);
    let ghost mid = body@;
    body.append("]}");
    assert(body@ =~= tags_body_text(repository@, tv));
    body
}

/// The answer to a tags list request.
pub open spec fn tags_reply_view(
    reg: RegistryView,
    namespace: Seq<char>,
    name: Seq<char>,
    n: Option<nat>,
    last: Option<Seq<char>>,
) -> ReplyView {
    let repository = namespace + seq!['/'] + name;
    if reg.tags.contains_key(repository) {
        ReplyView {
            status: 200,
            content_type: Some("application/json"@),
            digest: None,
            content_length: None,
            body: vstd::utf8::encode_utf8(tags_body_text(repository, paginate(reg.tags[repository], n, last))),
        }
    } else {
        error_reply_view(404, error_codes::NAME_UNKNOWN@, "repository name not known to registry"@)
    }
}

/// end-8a: List tags endpoint (GET)
/// end-8b: List paginated tags (GET with ?n=&last=)
pub fn list_tags(state: &AppState, namespace: &str, name: &str, n: Option<usize>, last: Option<&str>) -> (r: HttpReply)
    ensures
        r@ == tags_reply_view(state.registry@, namespace@, name@, opt_nat(n), crate::metadata::opt_str_view(last)),
{
    let mut repository = namespace.to_owned();
    push_char(&mut repository, '/');
    repository.append(name);
    assert(repository@ =~= namespace@ + seq!['/'] + name@);
    match state.registry.get_tags(repository.as_str()) {
        Some(tags) => {
            let page = paginate_tags(tags, n, last);
            let body = tags_list_body(repository.as_str(), &page);
            HttpReply {
                status: 200,
                content_type: Some("application/json".to_owned()),
                digest: None,
                content_length: None,
                body: body.as_str().as_bytes_vec(),
            }
        },
        None => error_response(404, error_codes::NAME_UNKNOWN, "repository name not known to registry"),
    }
}

/// A HEAD answer is the GET answer without its body: same status and
/// headers, with `Content-Length` the size of the body GET sends, for blobs
/// and manifests found in the registry.
pub proof fn lemma_head_mirrors_get(
    reg: RegistryView,
    digest: Seq<char>,
    namespace: Seq<char>,
    name: Seq<char>,
    reference: Seq<char>,
)
    ensures
        reg.lookup_blob(digest) is Some ==> ({
            let get = blob_reply_view(reg, digest, false);
            let head = blob_reply_view(reg, digest, true);
            &&& head.status == get.status
            &&& head.content_type == get.content_type
            &&& head.digest == get.digest
            &&& head.content_length == get.content_length
            &&& get.content_length == Some(get.body.len())
            &&& head.body.len() == 0
        }),
        manifest_lookup(reg, namespace, name, reference) is Some ==> ({
            let get = manifest_reply_view(reg, namespace, name, reference, false);
            let head = manifest_reply_view(reg, namespace, name, reference, true);
            &&& head.status == get.status
            &&& head.content_type == get.content_type
            &&& head.digest == get.digest
            &&& head.content_length == get.content_length
            &&& get.content_length == Some(get.body.len())
            &&& head.body.len() == 0
        }),
{
}

/// In a content-addressed registry whose entries' blobs have their
/// digests, a blob served for a digest has that digest, and a served
/// manifest has the digest its header announces.
pub proof fn lemma_served_content_matches_digest(
    reg: RegistryView,
    digest: Seq<char>,
    namespace: Seq<char>,
    name: Seq<char>,
    reference: Seq<char>,
)
    requires
        reg.content_addressed(),
        reg.all_digests_hold(),
    ensures
        blob_reply_view(reg, digest, false).status == 200 ==> digest_of(
            blob_reply_view(reg, digest, false).body,
        ) == digest,
        manifest_reply_view(reg, namespace, name, reference, false).status == 200 ==> Some(
            digest_of(manifest_reply_view(reg, namespace, name, reference, false).body),
        ) == manifest_reply_view(reg, namespace, name, reference, false).digest,
{
    if reg.lookup_blob(digest) is Some {
        assert(reg.by_digest.contains_key(digest));
    }
    if manifest_lookup(reg, namespace, name, reference) is Some {
        let full = tag_reference_text(namespace, name, reference);
        if reg.by_reference.contains_key(full) {
            assert(digests_hold(reg.by_reference[full]));
        } else {
            match find_char(full, '@') {
                Some(i) => {
                    crate::metadata::lemma_find_char_in_range(full, '@');
                    let d = full.subrange(i + 1, full.len() as int);
                    if reg.by_digest.contains_key(d) {
                        assert(digests_hold(reg.by_digest[d].1));
                    }
                },
                None => {},
            }
            if reg.by_digest.contains_key(reference) {
                assert(digests_hold(reg.by_digest[reference].1));
            }
        }
    }
}

/// A registered component's manifest is served under its version tag.
pub proof fn lemma_register_then_pull_by_tag(reg: RegistryView, e: EntryView)
    ensures
        manifest_lookup(reg.register(e), e.namespace, e.name, e.version) == Some(e),
{
    assert(tag_reference_text(e.namespace, e.name, e.version) =~= crate::registry::reference_text(e));
    crate::registry::lemma_register_then_lookup(reg, e);
}

/// A registered component's manifest is served under its manifest digest
/// (as `oras` pulls by digest), unless the request's reference text holds
/// an `@` or is itself a registered reference.
pub proof fn lemma_register_then_pull_by_digest(reg: RegistryView, e: EntryView)
    requires
        digests_hold(e),
        !tag_reference_text(e.namespace, e.name, e.manifest_digest).contains('@'),
        !reg.register(e).by_reference.contains_key(tag_reference_text(e.namespace, e.name, e.manifest_digest)),
    ensures
        manifest_lookup(reg.register(e), e.namespace, e.name, e.manifest_digest) == Some(e),
{
    let full = tag_reference_text(e.namespace, e.name, e.manifest_digest);
    crate::metadata::lemma_find_char_absent(full, '@');
    reveal_strlit("sha256:");
    assert(e.manifest_digest.subrange(0, 7) =~= "sha256:"@);
    crate::registry::lemma_register_then_get_blob(reg, e);
}

/// Without `n` and `last`, every tag is listed, in order.
pub proof fn lemma_paginate_everything(tags: Seq<Seq<char>>)
    ensures
        paginate(tags, None, None) == tags,
    decreases tags.len(),
{
    if tags.len() > 0 {
        lemma_paginate_everything(tags.drop_last());
        assert(tags.drop_last().push(tags.last()) =~= tags);
    }
}

/// A page holds at most `n` tags, each listed after `last`, each a tag of
/// the repository.
pub proof fn lemma_page_bounds(tags: Seq<Seq<char>>, n: Option<nat>, last: Option<Seq<char>>)
    ensures
        n matches Some(k) ==> paginate(tags, n, last).len() <= k,
        forall|i: int|
            0 <= i < paginate(tags, n, last).len() ==> listed_after(#[trigger] paginate(tags, n, last)[i], last)
                && tags.contains(paginate(tags, n, last)[i]),
{
    lemma_tags_after(tags, last);
}

/// Every tag kept by `tags_after` is listed after `last` and is one of the tags.
pub proof fn lemma_tags_after(tags: Seq<Seq<char>>, last: Option<Seq<char>>)
    ensures
        forall|i: int|
            0 <= i < tags_after(tags, last).len() ==> listed_after(#[trigger] tags_after(tags, last)[i], last)
                && tags.contains(tags_after(tags, last)[i]),
    decreases tags.len(),
{
    if tags.len() > 0 {
        let p = tags.drop_last();
        lemma_tags_after(p, last);
        assert forall|i: int|
            0 <= i < tags_after(tags, last).len() implies listed_after(#[trigger] tags_after(tags, last)[i], last)
                && tags.contains(tags_after(tags, last)[i]) by {
            let t = tags_after(tags, last)[i];
            if i < tags_after(p, last).len() {
                assert(t == tags_after(p, last)[i]);
                let k = choose|k: int| 0 <= k < p.len() && p[k] == t;
                assert(tags[k] == t);
            } else {
                assert(t == tags.last());
                assert(tags[tags.len() - 1] == t);
            }
        }
    }
}

/// A registered component's layer and config are served under their own
/// digests, with exactly their bytes, provided the three digests of the
/// entry differ (the later index wins otherwise).
pub proof fn lemma_register_then_pull_blobs(reg: RegistryView, e: EntryView)
    requires
        e.wasm_digest != e.config_digest,
        e.wasm_digest != e.manifest_digest,
        e.config_digest != e.manifest_digest,
    ensures
        blob_reply_view(reg.register(e), e.wasm_digest, false) == content_reply_view(
            WASM_LAYER_MEDIA_TYPE@,
            e.wasm_digest,
            e.wasm_bytes,
            false,
        ),
        blob_reply_view(reg.register(e), e.config_digest, false) == content_reply_view(
            WASM_CONFIG_MEDIA_TYPE@,
            e.config_digest,
            e.config_json,
            false,
        ),
        blob_reply_view(reg.register(e), e.manifest_digest, false) == content_reply_view(
            WASM_MANIFEST_MEDIA_TYPE@,
            e.manifest_digest,
            e.manifest_json,
            false,
        ),
{
    crate::registry::lemma_register_then_get_blob(reg, e);
}

/// A page of ascending tags is ascending.
pub proof fn lemma_page_sorted(tags: Seq<Seq<char>>, n: Option<nat>, last: Option<Seq<char>>)
    requires
        sorted(tags),
    ensures
        sorted(paginate(tags, n, last)),
{
    lemma_tags_after_sorted(tags, last);
    let kept = tags_after(tags, last);
    let page = paginate(tags, n, last);
    assert forall|i: int, j: int| 0 <= i < j < page.len() implies !lex_less(#[trigger] page[j], #[trigger] page[i]) by {
        assert(page[i] == kept[i] && page[j] == kept[j]);
    }
}

/// Keeping the tags after `last` keeps ascending tags ascending.
proof fn lemma_tags_after_sorted(tags: Seq<Seq<char>>, last: Option<Seq<char>>)
    requires
        sorted(tags),
    ensures
        sorted(tags_after(tags, last)),
    decreases tags.len(),
{
    if tags.len() > 0 {
        let p = tags.drop_last();
        assert(sorted(p)) by {
            assert forall|i: int, j: int| 0 <= i < j < p.len() implies !lex_less(#[trigger] p[j], #[trigger] p[i]) by {
                assert(p[i] == tags[i] && p[j] == tags[j]);
            }
        }
        lemma_tags_after_sorted(p, last);
        lemma_tags_after(p, last);
        let kp = tags_after(p, last);
        let k = tags_after(tags, last);
        assert forall|i: int, j: int| 0 <= i < j < k.len() implies !lex_less(#[trigger] k[j], #[trigger] k[i]) by {
            if j < kp.len() {
                assert(k[i] == kp[i] && k[j] == kp[j]);
            } else {
                assert(k[i] == kp[i]);
                assert(k[j] == tags.last());
                assert(p.contains(kp[i]));
                let m = choose|m: int| 0 <= m < p.len() && p[m] == kp[i];
                assert(tags[m] == kp[i]);
                assert(tags[tags.len() - 1] == tags.last());
            }
        }
    }
}

/// A manifest request is answered by tag (or `@digest`) reference, or else
/// by a digest only when it is the digest of a registered manifest: a
/// layer's or a config's digest is no manifest, and its request is answered
/// 404 `MANIFEST_UNKNOWN` (a bare 404 for HEAD).
pub proof fn lemma_manifest_lookup(reg: RegistryView, namespace: Seq<char>, name: Seq<char>, reference: Seq<char>)
    ensures
        manifest_lookup(reg, namespace, name, reference) matches Some(e) ==> reg.lookup_reference(
            tag_reference_text(namespace, name, reference),
        ) == Some(e) || reg.lookup_blob(reference) == Some((BlobType::Manifest, e)),
        reg.lookup_reference(tag_reference_text(namespace, name, reference)) matches Some(e) ==> manifest_lookup(
            reg,
            namespace,
            name,
            reference,
        ) == Some(e),
        reg.lookup_reference(tag_reference_text(namespace, name, reference)) is None && (reg.lookup_blob(
            reference,
        ) matches Some((t, _)) && t != BlobType::Manifest) ==> {
            &&& manifest_lookup(reg, namespace, name, reference) is None
            &&& manifest_reply_view(reg, namespace, name, reference, false) == error_reply_view(
                404,
                error_codes::MANIFEST_UNKNOWN@,
                "manifest unknown"@,
            )
            &&& manifest_reply_view(reg, namespace, name, reference, true) == head_not_found_view()
        },
        reg.lookup_reference(tag_reference_text(namespace, name, reference)) is None && reg.lookup_blob(reference)
            is None ==> manifest_lookup(reg, namespace, name, reference) is None,
{
}

/// A page lists, in order, the first tags listed after `last`: all of them
/// without a limit, else as many as the limit allows (all of them when the
/// limit is at least their number).
pub proof fn lemma_page_prefix(tags: Seq<Seq<char>>, n: Option<nat>, last: Option<Seq<char>>)
    ensures
        paginate(tags, n, last).len() == match n {
            Some(k) => if k < tags_after(tags, last).len() {
                k as int
            } else {
                tags_after(tags, last).len() as int
            },
            None => tags_after(tags, last).len() as int,
        },
        forall|i: int|
            0 <= i < paginate(tags, n, last).len() ==> #[trigger] paginate(tags, n, last)[i] == tags_after(
                tags,
                last,
            )[i],
        n matches Some(k) && k >= tags_after(tags, last).len() ==> paginate(tags, n, last) == paginate(
            tags,
            None,
            last,
        ),
        paginate(tags, None, last) == tags_after(tags, last),
{
}

/// The tags listed after `last` are exactly the repository's tags that come
/// lexically after it (all of them without `last`), in the repository's
/// order.
pub proof fn lemma_tags_after_exact(tags: Seq<Seq<char>>, last: Option<Seq<char>>, t: Seq<char>)
    ensures
        tags_after(tags, last).contains(t) <==> tags.contains(t) && match last {
            Some(l) => lex_less(l, t),
            None => true,
        },
        tags_after(tags, last).len() <= tags.len(),
    decreases tags.len(),
{
    lemma_tags_after(tags, last);
    if tags.len() > 0 {
        let p = tags.drop_last();
        lemma_tags_after_exact(p, last, t);
        let kp = tags_after(p, last);
        let k = tags_after(tags, last);
        if k.contains(t) {
            let i = choose|i: int| 0 <= i < k.len() && k[i] == t;
            assert(listed_after(k[i], last) && tags.contains(k[i]));
        }
        if tags.contains(t) && listed_after(t, last) {
            let j = choose|j: int| 0 <= j < tags.len() && tags[j] == t;
            if j < p.len() {
                assert(p[j] == t);
                let i = choose|i: int| 0 <= i < kp.len() && kp[i] == t;
                assert(k[i] == t);
            } else {
                assert(k[k.len() - 1] == t);
            }
        }
    }
}

} // verus!
