//! In-memory registry data structures for WASM components.

use std::sync::Arc;

use vstd::hash_map::StringHashMap;
use vstd::prelude::*;

use crate::digest::digest_of;
use crate::metadata::{find_char, find_char_index};
use crate::order::{insert_sorted, insert_sorted_vec, lemma_insert_sorted, sorted};
use crate::text::push_char;

verus! {

/// Type of blob stored in the registry.
#[derive(Debug, Clone, Copy, PartialEq, Eq, Structural)]
pub enum BlobType {
    /// WASM component bytes
    Wasm,
    /// OCI config JSON
    Config,
    /// OCI manifest JSON
    Manifest,
}

/// Registry entry for a single component version.
#[derive(Debug)]
pub struct ComponentEntry {
    /// Raw WASM bytes
    pub wasm_bytes: Vec<u8>,
    /// sha256:... digest of WASM bytes
    pub wasm_digest: String,
    /// Pre-computed config JSON (deterministic)
    pub config_json: Vec<u8>,
    /// sha256:... digest of config
    pub config_digest: String,
    /// Pre-computed manifest JSON (deterministic)
    pub manifest_json: Vec<u8>,
    /// sha256:... digest of manifest
    pub manifest_digest: String,
    /// Parsed metadata
    pub namespace: String,
    pub name: String,
    pub version: String,
}

/// The plain contents of a registry entry.
pub struct EntryView {
    pub wasm_bytes: Seq<u8>,
    pub wasm_digest: Seq<char>,
    pub config_json: Seq<u8>,
    pub config_digest: Seq<char>,
    pub manifest_json: Seq<u8>,
    pub manifest_digest: Seq<char>,
    pub namespace: Seq<char>,
    pub name: Seq<char>,
    pub version: Seq<char>,
}

impl View for ComponentEntry {
    type V = EntryView;

    open spec fn view(&self) -> EntryView {
        EntryView {
            wasm_bytes: self.wasm_bytes@,
            wasm_digest: self.wasm_digest@,
            config_json: self.config_json@,
            config_digest: self.config_digest@,
            manifest_json: self.manifest_json@,
            manifest_digest: self.manifest_digest@,
            namespace: self.namespace@,
            name: self.name@,
            version: self.version@,
        }
    }
}

/// `namespace/name`.
pub open spec fn repository_text(e: EntryView) -> Seq<char> {
    e.namespace + seq!['/'] + e.name
}

/// `namespace/name:version`.
pub open spec fn reference_text(e: EntryView) -> Seq<char> {
    repository_text(e) + seq![':'] + e.version
}

impl ComponentEntry {
    /// Returns the full reference string (namespace/name:version).
    pub fn reference(&self) -> (r: String)
        ensures
            r@ == reference_text(self@),
    {
        let mut r = self.repository();
        push_char(&mut r, ':');
        r.append(self.version.as_str());
        r
    }

    /// Returns the repository path (namespace/name).
    pub fn repository(&self) -> (r: String)
        ensures
            r@ == repository_text(self@),
    {
        let mut r = self.namespace.clone();
        push_char(&mut r, '/');
        r.append(self.name.as_str());
        r
    }
}

/// Calls `Arc::clone`: another pointer to the same entry.
#[verifier::external_body]
fn share(entry: &Arc<ComponentEntry>) -> (r: Arc<ComponentEntry>)
    ensures
        r == *entry,
{
    Arc::clone(entry)
}

/// A copy of a list of strings.
fn copy_strings(v: &Vec<String>) -> (r: Vec<String>)
    ensures
        r.deep_view() == v.deep_view(),
{
    let mut r: Vec<String> = Vec::new();
    let mut i: usize = 0;
    while i < v.len()
        invariant
            i <= v@.len(),
            r@.len() == i,
            forall|k: int| 0 <= k < i ==> r@[k]@ == v@[k]@,
        decreases v@.len() - i,
    {
        let item = v[i].clone();
        r.push(item);
        i = i + 1;
    }
    assert(r.deep_view() =~= v.deep_view());
    r
}

/// In-memory registry storing component entries.
pub struct Registry {
    /// namespace/name:version -> entry
    by_reference: StringHashMap<Arc<ComponentEntry>>,
    /// digest -> (type, entry) for blob lookups
    by_digest: StringHashMap<(BlobType, Arc<ComponentEntry>)>,
    /// repository (namespace/name) -> one version per registration, lexically ascending
    tags_by_repo: StringHashMap<Vec<String>>,
    /// the keys of `by_reference`, each once, in the order first registered
    references: Vec<String>,
}

/// The plain contents of a registry.
pub struct RegistryView {
    pub by_reference: Map<Seq<char>, EntryView>,
    pub by_digest: Map<Seq<char>, (BlobType, EntryView)>,
    pub tags: Map<Seq<char>, Seq<Seq<char>>>,
    pub references: Seq<Seq<char>>,
}

impl View for Registry {
    type V = RegistryView;

    closed spec fn view(&self) -> RegistryView {
        RegistryView {
            by_reference: self.by_reference@.map_values(|e: Arc<ComponentEntry>| e@),
            by_digest: self.by_digest@.map_values(|p: (BlobType, Arc<ComponentEntry>)| (p.0, p.1@)),
            tags: self.tags_by_repo@.map_values(|v: Vec<String>| v.deep_view()),
            references: self.references.deep_view(),
        }
    }
}

impl RegistryView {
    /// The registry after registering `e`: its reference points at it, its
    /// three digests point at it with their blob types (the manifest digest
    /// written last), and its version joins its repository's tags at its
    /// lexical place, after any equal version.
    pub open spec fn register(self, e: EntryView) -> RegistryView {
        RegistryView {
            by_reference: self.by_reference.insert(reference_text(e), e),
            by_digest: self.by_digest.insert(e.wasm_digest, (BlobType::Wasm, e)).insert(
                e.config_digest,
                (BlobType::Config, e),
            ).insert(e.manifest_digest, (BlobType::Manifest, e)),
            tags: self.tags.insert(repository_text(e), insert_sorted(self.tags_of(repository_text(e)), e.version)),
            references: if self.references.contains(reference_text(e)) {
                self.references
            } else {
                self.references.push(reference_text(e))
            },
        }
    }

    /// The tags of a repository; none when it is unknown.
    pub open spec fn tags_of(self, repository: Seq<char>) -> Seq<Seq<char>> {
        if self.tags.contains_key(repository) {
            self.tags[repository]
        } else {
            Seq::empty()
        }
    }

    /// Look up by reference: the entry registered under exactly this
    /// reference, or else, for `...@digest`, the entry whose manifest has
    /// the digest after the first `@`.
    pub open spec fn lookup_reference(self, reference: Seq<char>) -> Option<EntryView> {
        if self.by_reference.contains_key(reference) {
            Some(self.by_reference[reference])
        } else {
            match find_char(reference, '@') {
                Some(i) => {
                    let digest = reference.subrange(i + 1, reference.len() as int);
                    if self.by_digest.contains_key(digest) && self.by_digest[digest].0
                        == BlobType::Manifest {
                        Some(self.by_digest[digest].1)
                    } else {
                        None
                    }
                },
                None => None,
            }
        }
    }

    /// Look up a blob by digest.
    pub open spec fn lookup_blob(self, digest: Seq<char>) -> Option<(BlobType, EntryView)> {
        if self.by_digest.contains_key(digest) {
            Some(self.by_digest[digest])
        } else {
            None
        }
    }

    /// The entries under each reference, in the order first registered.
    pub open spec fn entries(self) -> Seq<EntryView> {
        self.references.map_values(|k: Seq<char>| self.by_reference[k])
    }

    /// The registry is consistent: `references` lists each registered
    /// reference exactly once, and every repository's tags are lexically
    /// ascending.
    pub open spec fn wf(self) -> bool {
        &&& forall|i: int, j: int|
            0 <= i < j < self.references.len() ==> self.references[i] != self.references[j]
        &&& forall|k: Seq<char>|
            #![trigger self.by_reference.contains_key(k)]
            self.by_reference.contains_key(k) <==> self.references.contains(k)
        &&& forall|k: Seq<char>|
            #![trigger self.tags.contains_key(k)]
            self.tags.contains_key(k) ==> sorted(self.tags[k])
    }
}

impl Default for Registry {
    /// The empty registry.
    fn default() -> (r: Self)
        ensures
            r.wf(),
            r@.by_reference == Map::<Seq<char>, EntryView>::empty(),
            r@.by_digest == Map::<Seq<char>, (BlobType, EntryView)>::empty(),
            r@.tags == Map::<Seq<char>, Seq<Seq<char>>>::empty(),
            r@.references == Seq::<Seq<char>>::empty(),
    {
        Registry::new()
    }
}

/// The entries behind optional shared pointers.
pub open spec fn opt_entry(o: Option<Arc<ComponentEntry>>) -> Option<EntryView> {
    match o {
        Some(e) => Some(e@),
        None => None,
    }
}

impl Registry {
    /// The registry is consistent (see `RegistryView::wf`).
    pub open spec fn wf(&self) -> bool {
        self@.wf()
    }

    /// Create a new empty registry.
    pub fn new() -> (r: Self)
        ensures
            r.wf(),
            r@ == empty_registry(),
            r@.by_reference == Map::<Seq<char>, EntryView>::empty(),
            r@.by_digest == Map::<Seq<char>, (BlobType, EntryView)>::empty(),
            r@.tags == Map::<Seq<char>, Seq<Seq<char>>>::empty(),
            r@.references == Seq::<Seq<char>>::empty(),
    {
        let r = Registry {
            by_reference: StringHashMap::new(),
            by_digest: StringHashMap::new(),
            tags_by_repo: StringHashMap::new(),
            references: Vec::new(),
        };
        assert(r@.by_reference =~= Map::<Seq<char>, EntryView>::empty());
        assert(r@.by_digest =~= Map::<Seq<char>, (BlobType, EntryView)>::empty());
        assert(r@.tags =~= Map::<Seq<char>, Seq<Seq<char>>>::empty());
        assert(r@.references =~= Seq::<Seq<char>>::empty());
        r
    }

    /// Register a component entry in the registry.
    pub fn register(&mut self, entry: ComponentEntry)
        requires
            old(self).wf(),
        ensures
            final(self).wf(),
            final(self)@ == old(self)@.register(entry@),
    {
        let ghost ev = entry@;
        let ghost before = self@;
        let reference = entry.reference();
        let repository = entry.repository();
        let version = entry.version.clone();
        let wasm_digest = entry.wasm_digest.clone();
        let config_digest = entry.config_digest.clone();
        let manifest_digest = entry.manifest_digest.clone();

        let entry = Arc::new(entry);

        // Index by reference
        let ghost refs0 = self.references.deep_view();
        assert(before.by_reference.contains_key(reference@) == self.by_reference@.contains_key(reference@));
        assert(before.by_reference.contains_key(reference@) == refs0.contains(reference@));
        if !self.by_reference.contains_key(reference.as_str()) {
            self.references.push(reference.clone());
            proof {
                assert(self.references.deep_view() =~= refs0.push(reference@));
            }
        }
        self.by_reference.insert(reference, share(&entry));

        // Index by digests
        self.by_digest.insert(wasm_digest, (BlobType::Wasm, share(&entry)));
        self.by_digest.insert(config_digest, (BlobType::Config, share(&entry)));
        self.by_digest.insert(manifest_digest, (BlobType::Manifest, share(&entry)));

        // Index tags by repository, keeping them lexically ascending
        let mut tags: Vec<String> = match self.tags_by_repo.get(repository.as_str()) {
            Some(existing) => copy_strings(existing),
            None => Vec::new(),
        };
        assert(tags.deep_view() =~= before.tags_of(repository@));
        insert_sorted_vec(&mut tags, version);
        self.tags_by_repo.insert(repository, tags);

        let ghost after = before.register(ev);
        proof {
            assert(self.references.deep_view() == after.references);
        }
        assert(self@.by_reference =~= after.by_reference);
        assert(self@.by_digest =~= after.by_digest);
        assert(self@.tags =~= after.tags);
        assert(self@.references =~= after.references);
        proof {
            lemma_register_keeps_wf(before, ev);
        }
    }

    /// Look up an entry by reference (namespace/name:version or namespace/name@sha256:...).
    pub fn get_by_reference(&self, reference: &str) -> (r: Option<Arc<ComponentEntry>>)
        ensures
            opt_entry(r) == self@.lookup_reference(reference@),
    {
        // First try direct lookup
        if let Some(entry) = self.by_reference.get(reference) {
            return Some(share(entry));
        }
        // Check if it's a digest reference (namespace/name@sha256:...)
        let len = reference.unicode_len();
        if let Some(digest_start) = find_char_index(reference, '@') {
            let digest = reference.substring_char(digest_start + 1, len);
            if let Some(pair) = self.by_digest.get(digest) {
                if pair.0 == BlobType::Manifest {
                    return Some(share(&pair.1));
                }
            }
        }
        None
    }

    /// Look up a blob by digest.
    pub fn get_blob(&self, digest: &str) -> (r: Option<(BlobType, Arc<ComponentEntry>)>)
        ensures
            match r {
                Some((t, e)) => self@.lookup_blob(digest@) == Some((t, e@)),
                None => self@.lookup_blob(digest@) is None,
            },
    {
        match self.by_digest.get(digest) {
            Some(pair) => Some((pair.0, share(&pair.1))),
            None => None,
        }
    }

    /// Get all tags for a repository.
    pub fn get_tags(&self, repository: &str) -> (r: Option<&Vec<String>>)
        ensures
            match r {
                Some(tags) => self@.tags.contains_key(repository@) && tags.deep_view()
                    == self@.tags[repository@],
                None => !self@.tags.contains_key(repository@),
            },
    {
        self.tags_by_repo.get(repository)
    }

    /// Get all registered entries: one per reference, in the order first registered.
    pub fn entries(&self) -> (r: Vec<Arc<ComponentEntry>>)
        requires
            self.wf(),
        ensures
            r@.map_values(|e: Arc<ComponentEntry>| e@) == self@.entries(),
    {
        let mut out: Vec<Arc<ComponentEntry>> = Vec::new();
        let mut i: usize = 0;
        while i < self.references.len()
            invariant
                self.wf(),
                i <= self.references@.len(),
                out@.len() == i,
                forall|k: int| 0 <= k < i ==> out@[k]@ == self@.entries()[k],
            decreases self.references@.len() - i,
        {
            let key = self.references[i].as_str();
            assert(self@.references[i as int] == key@);
            assert(self@.references.contains(key@));
            assert(self@.by_reference.contains_key(key@));
            assert(self.by_reference@.contains_key(key@));
            match self.by_reference.get(key) {
                Some(entry) => {
                    let shared = share(entry);
                    proof {
                        assert(self@.by_reference[key@] == entry@);
                        assert(self@.entries()[i as int] == shared@);
                    }
                    out.push(shared);
                },
                None => {
                    assert(false);
                },
            }
            i = i + 1;
        }
        assert(out@.map_values(|e: Arc<ComponentEntry>| e@) =~= self@.entries());
        out
    }
}

/// The bytes of one blob of an entry.
pub open spec fn blob_bytes(t: BlobType, e: EntryView) -> Seq<u8> {
    match t {
        BlobType::Wasm => e.wasm_bytes,
        BlobType::Config => e.config_json,
        BlobType::Manifest => e.manifest_json,
    }
}

/// Each blob of the entry is addressed by the digest of its bytes.
pub open spec fn digests_hold(e: EntryView) -> bool {
    &&& e.wasm_digest == digest_of(e.wasm_bytes)
    &&& e.config_digest == digest_of(e.config_json)
    &&& e.manifest_digest == digest_of(e.manifest_json)
}

impl RegistryView {
    /// Every entry the registry holds has its blobs addressed by their digests.
    pub open spec fn all_digests_hold(self) -> bool {
        &&& forall|k: Seq<char>|
            #![trigger self.by_reference.contains_key(k)]
            self.by_reference.contains_key(k) ==> digests_hold(self.by_reference[k])
        &&& forall|d: Seq<char>|
            #![trigger self.by_digest.contains_key(d)]
            self.by_digest.contains_key(d) ==> digests_hold(self.by_digest[d].1)
    }

    /// Every digest the registry knows leads to a blob with that digest.
    pub open spec fn content_addressed(self) -> bool {
        forall|d: Seq<char>|
            #![trigger self.by_digest.contains_key(d)]
            self.by_digest.contains_key(d) ==> digest_of(blob_bytes(self.by_digest[d].0, self.by_digest[d].1))
                == d
    }
}

/// A registered entry is found again under its reference.
pub proof fn lemma_register_then_lookup(r: RegistryView, e: EntryView)
    ensures
        r.register(e).lookup_reference(reference_text(e)) == Some(e),
{
}

/// A registered entry's blobs are found again by digest: the manifest
/// always, the config unless its digest is the manifest's, the layer unless
/// its digest is one of the other two (the later index wins).
pub proof fn lemma_register_then_get_blob(r: RegistryView, e: EntryView)
    ensures
        r.register(e).lookup_blob(e.manifest_digest) == Some((BlobType::Manifest, e)),
        e.config_digest != e.manifest_digest ==> r.register(e).lookup_blob(e.config_digest) == Some(
            (BlobType::Config, e),
        ),
        e.wasm_digest != e.config_digest && e.wasm_digest != e.manifest_digest ==> r.register(
            e,
        ).lookup_blob(e.wasm_digest) == Some((BlobType::Wasm, e)),
{
}

/// Registering keeps the registry consistent: each reference listed once,
/// and every repository's tags ascending.
pub proof fn lemma_register_keeps_wf(r: RegistryView, e: EntryView)
    requires
        r.wf(),
    ensures
        r.register(e).wf(),
{
    let after = r.register(e);
    let key = reference_text(e);
    let repo = repository_text(e);
    assert forall|k: Seq<char>|
        #![trigger after.by_reference.contains_key(k)]
        after.by_reference.contains_key(k) <==> after.references.contains(k) by {
        if !r.references.contains(key) {
            if k == key {
                assert(after.references[r.references.len() as int] == k);
            }
            if after.references.contains(k) && k != key {
                let j = choose|j: int| 0 <= j < after.references.len() && after.references[j] == k;
                assert(r.references[j] == k);
            }
            if r.references.contains(k) {
                let j = choose|j: int| 0 <= j < r.references.len() && r.references[j] == k;
                assert(after.references[j] == k);
            }
        }
    }
    assert forall|i: int, j: int|
        0 <= i < j < after.references.len() implies after.references[i] != after.references[j] by {
        if !r.references.contains(key) && j == r.references.len() {
            assert(r.references[i] == after.references[i]);
        }
    }
    assert(sorted(r.tags_of(repo))) by {
        if !r.tags.contains_key(repo) {
            assert(r.tags_of(repo) =~= Seq::<Seq<char>>::empty());
        }
    }
    lemma_insert_sorted(r.tags_of(repo), e.version);
    assert forall|k: Seq<char>| #![trigger after.tags.contains_key(k)] after.tags.contains_key(k) implies sorted(
        after.tags[k],
    ) by {
        if k != repo {
            assert(r.tags.contains_key(k));
        }
    }
}

/// Registering adds the version to its repository's tags at its lexical
/// place and leaves every other repository's tags alone: the tags stay
/// ascending, grow by one, and are exactly the old ones and the new version.
pub proof fn lemma_register_adds_tag(r: RegistryView, e: EntryView, other: Seq<char>)
    requires
        r.wf(),
    ensures
        r.register(e).tags_of(repository_text(e)) == insert_sorted(r.tags_of(repository_text(e)), e.version),
        sorted(r.register(e).tags_of(repository_text(e))),
        r.register(e).tags_of(repository_text(e)).len() == r.tags_of(repository_text(e)).len() + 1,
        forall|t: Seq<char>|
            #[trigger] r.register(e).tags_of(repository_text(e)).contains(t) <==> (r.tags_of(
                repository_text(e),
            ).contains(t) || t == e.version),
        other != repository_text(e) ==> r.register(e).tags_of(other) == r.tags_of(other),
{
    lemma_register_keeps_wf(r, e);
    lemma_insert_sorted(r.tags_of(repository_text(e)), e.version);
}

/// Registering a reference again replaces its entry and lists no new
/// reference: the number of entries stays the same.
pub proof fn lemma_register_again(r: RegistryView, e: EntryView)
    requires
        r.wf(),
        r.by_reference.contains_key(reference_text(e)),
    ensures
        r.register(e).references == r.references,
        r.register(e).entries().len() == r.entries().len(),
        r.register(e).by_reference[reference_text(e)] == e,
{
}

/// Registering leaves what other registered references lead to alone.
pub proof fn lemma_register_keeps_other_references(r: RegistryView, e: EntryView, k: Seq<char>)
    requires
        k != reference_text(e),
        r.by_reference.contains_key(k),
    ensures
        r.register(e).lookup_reference(k) == r.lookup_reference(k),
{
}

/// `find_char` on a sequence whose first `c` follows a prefix free of it.
pub proof fn lemma_find_char_after_prefix(a: Seq<char>, c: char, b: Seq<char>)
    requires
        !a.contains(c),
    ensures
        find_char(a + seq![c] + b, c) == Some(a.len() as int),
{
    let s = a + seq![c] + b;
    assert forall|j: int| 0 <= j < a.len() implies s[j] != c by {
        assert(s[j] == a[j]);
    }
    crate::metadata::lemma_find_char(s, c, a.len() as int);
}

/// A registered entry is found by `repository@manifest_digest`, provided
/// the repository holds no `@` and that string is not itself a registered
/// reference.
pub proof fn lemma_register_then_lookup_by_digest(r: RegistryView, e: EntryView)
    requires
        !repository_text(e).contains('@'),
        !r.register(e).by_reference.contains_key(repository_text(e) + seq!['@'] + e.manifest_digest),
    ensures
        r.register(e).lookup_reference(repository_text(e) + seq!['@'] + e.manifest_digest) == Some(e),
{
    let repo = repository_text(e);
    let q = repo + seq!['@'] + e.manifest_digest;
    lemma_find_char_after_prefix(repo, '@', e.manifest_digest);
    assert(q.subrange(repo.len() as int + 1, q.len() as int) =~= e.manifest_digest);
    lemma_register_then_get_blob(r, e);
}

/// A registered entry is among the registry's entries.
pub proof fn lemma_register_then_entries(r: RegistryView, e: EntryView)
    ensures
        r.register(e).entries().contains(e),
{
    let after = r.register(e);
    let k = reference_text(e);
    assert(after.references.contains(k)) by {
        if !r.references.contains(k) {
            assert(after.references[r.references.len() as int] == k);
        }
    }
    let j = choose|j: int| 0 <= j < after.references.len() && after.references[j] == k;
    assert(after.entries()[j] == e);
}

/// Registering an entry whose blobs are addressed by their digests keeps
/// the registry content-addressed.
pub proof fn lemma_register_keeps_content_addressed(r: RegistryView, e: EntryView)
    requires
        r.content_addressed(),
        digests_hold(e),
    ensures
        r.register(e).content_addressed(),
{
    let after = r.register(e);
    assert forall|d: Seq<char>| #[trigger] after.by_digest.contains_key(d) implies digest_of(
        blob_bytes(after.by_digest[d].0, after.by_digest[d].1),
    ) == d by {
        if d != e.wasm_digest && d != e.config_digest && d != e.manifest_digest {
            assert(r.by_digest.contains_key(d));
        }
    }
}

/// Registering an entry whose blobs have their digests keeps every entry so.
pub proof fn lemma_register_keeps_digests(r: RegistryView, e: EntryView)
    requires
        r.all_digests_hold(),
        digests_hold(e),
    ensures
        r.register(e).all_digests_hold(),
{
    let after = r.register(e);
    assert forall|k: Seq<char>| #[trigger] after.by_reference.contains_key(k) implies digests_hold(
        after.by_reference[k],
    ) by {
        if k != reference_text(e) {
            assert(r.by_reference.contains_key(k));
        }
    }
    assert forall|d: Seq<char>| #[trigger] after.by_digest.contains_key(d) implies digests_hold(
        after.by_digest[d].1,
    ) by {
        if d != e.wasm_digest && d != e.config_digest && d != e.manifest_digest {
            assert(r.by_digest.contains_key(d));
        }
    }
}

/// The empty registry is content-addressed.
pub proof fn lemma_empty_content_addressed(r: RegistryView)
    requires
        r.by_reference == Map::<Seq<char>, EntryView>::empty(),
        r.by_digest == Map::<Seq<char>, (BlobType, EntryView)>::empty(),
    ensures
        r.content_addressed(),
        r.all_digests_hold(),
{
}

/// The registry before anything is registered.
pub open spec fn empty_registry() -> RegistryView {
    RegistryView {
        by_reference: Map::empty(),
        by_digest: Map::empty(),
        tags: Map::empty(),
        references: Seq::empty(),
    }
}

/// The registry after registering `es` in order, starting empty (what
/// `Registry::new` and successive `register` calls hold).
pub open spec fn registered(es: Seq<EntryView>) -> RegistryView
    decreases es.len(),
{
    if es.len() == 0 {
        empty_registry()
    } else {
        registered(es.drop_last()).register(es.last())
    }
}

/// How many of `es` belong to the repository.
pub open spec fn registrations_of(es: Seq<EntryView>, repository: Seq<char>) -> nat
    decreases es.len(),
{
    if es.len() == 0 {
        0
    } else {
        registrations_of(es.drop_last(), repository) + if repository_text(es.last()) == repository {
            1nat
        } else {
            0nat
        }
    }
}

/// After any number of registrations, a repository's tags are known exactly
/// when one of its components was registered, are lexically ascending, hold
/// one version per registration of the repository, and hold exactly the
/// versions registered for it.
pub proof fn lemma_registered_tags(es: Seq<EntryView>, repository: Seq<char>)
    ensures
        registered(es).wf(),
        registered(es).tags.contains_key(repository) <==> exists|i: int|
            0 <= i < es.len() && repository_text(#[trigger] es[i]) == repository,
        sorted(registered(es).tags_of(repository)),
        registered(es).tags_of(repository).len() == registrations_of(es, repository),
        forall|t: Seq<char>|
            #[trigger] registered(es).tags_of(repository).contains(t) <==> exists|i: int|
                0 <= i < es.len() && repository_text(#[trigger] es[i]) == repository && es[i].version == t,
    decreases es.len(),
{
    if es.len() == 0 {
        assert(empty_registry().tags_of(repository) =~= Seq::<Seq<char>>::empty());
    } else {
        let p = es.drop_last();
        let e = es.last();
        let r = registered(p);
        lemma_registered_tags(p, repository);
        lemma_register_keeps_wf(r, e);
        lemma_register_adds_tag(r, e, repository);
        let after = registered(es);
        assert(after == r.register(e));
        assert(es[es.len() - 1] == e);
        assert forall|i: int| 0 <= i < p.len() implies #[trigger] p[i] == es[i] by {}
        if after.tags.contains_key(repository) && repository != repository_text(e) {
            assert(r.tags.contains_key(repository));
            let i = choose|i: int| 0 <= i < p.len() && repository_text(#[trigger] p[i]) == repository;
            assert(es[i] == p[i]);
        }
        if exists|i: int| 0 <= i < es.len() && repository_text(#[trigger] es[i]) == repository {
            let i = choose|i: int| 0 <= i < es.len() && repository_text(#[trigger] es[i]) == repository;
            if i < p.len() {
                assert(p[i] == es[i]);
                assert(r.tags.contains_key(repository));
            }
        }
        assert forall|t: Seq<char>|
            #[trigger] after.tags_of(repository).contains(t) <==> exists|i: int|
                0 <= i < es.len() && repository_text(#[trigger] es[i]) == repository && es[i].version == t by {
            if after.tags_of(repository).contains(t) {
                if repository == repository_text(e) && t == e.version {
                    assert(repository_text(es[es.len() - 1]) == repository);
                } else {
                    assert(r.tags_of(repository).contains(t));
                    let i = choose|i: int|
                        0 <= i < p.len() && repository_text(#[trigger] p[i]) == repository && p[i].version == t;
                    assert(es[i] == p[i]);
                }
            }
            if exists|i: int| 0 <= i < es.len() && repository_text(#[trigger] es[i]) == repository && es[i].version == t {
                let i = choose|i: int|
                    0 <= i < es.len() && repository_text(#[trigger] es[i]) == repository && es[i].version == t;
                if i < p.len() {
                    assert(p[i] == es[i]);
                    assert(r.tags_of(repository).contains(t));
                }
            }
        }
    }
}

} // verus!
