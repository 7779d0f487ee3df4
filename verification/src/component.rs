//! What a component exports and imports, read from its decoded WIT.

use vstd::prelude::*;

use wit_parser::{Package, Resolve, World};

use crate::error::{error_text, OciError};
use crate::oci::{ComponentInfo, ComponentInfoView};

verus! {

/// The resolved WIT of a decoded binary.
#[verifier::external_type_specification]
#[verifier::external_body]
pub struct ExResolve(Resolve);

/// Arena handles into a `Resolve`.
#[verifier::external_type_specification]
#[verifier::external_body]
#[verifier::reject_recursive_types(T)]
pub struct ExId<T>(id_arena::Id<T>);

#[verifier::external_type_specification]
#[verifier::external_body]
pub struct ExWorld(World);

#[verifier::external_type_specification]
#[verifier::external_body]
pub struct ExPackage(Package);

/// How `wit_component::decode` classifies a binary: `None` when it cannot
/// be decoded, `Some(true)` for a WIT package, `Some(false)` for a component.
pub uninterp spec fn wasm_decoded_kind(bytes: Seq<u8>) -> Option<bool>;

/// The names (`Resolve::name_world_key`) of the exports of the world that a
/// component decoded from these bytes targets, in the world's order.
pub uninterp spec fn wasm_world_exports(bytes: Seq<u8>) -> Seq<Seq<char>>;

/// The names of the imports of that world, in the world's order.
pub uninterp spec fn wasm_world_imports(bytes: Seq<u8>) -> Seq<Seq<char>>;

/// The name of the WIT package decoded from these bytes: namespace, name,
/// and version as its `Display` writes it.
pub uninterp spec fn wasm_package_name(bytes: Seq<u8>) -> (Seq<char>, Seq<char>, Option<Seq<char>>);

/// The worlds of that package, in the package's order: each world's name
/// and the names of its exports.
pub uninterp spec fn wasm_package_worlds(bytes: Seq<u8>) -> Seq<(Seq<char>, Seq<Seq<char>>)>;

/// The ids (`Resolve::id_of`) of that package's interfaces, in the
/// package's order; `None` for an anonymous one.
pub uninterp spec fn wasm_interface_ids(bytes: Seq<u8>) -> Seq<Option<Seq<char>>>;

/// A component as `wit_component::decode` resolved it, beside the bytes it
/// was decoded from; its view is those bytes. Built only by `decode_wasm`,
/// so the world handle always belongs to the `Resolve` next to it.
pub struct DecodedComponent {
    resolve: Resolve,
    world: id_arena::Id<World>,
    source: Vec<u8>,
}

/// A WIT package as `wit_component::decode` resolved it, beside the bytes
/// it was decoded from; its view is those bytes. Built only by
/// `decode_wasm`, so the package handle always belongs to the `Resolve`.
pub struct DecodedPackage {
    resolve: Resolve,
    package: id_arena::Id<Package>,
    source: Vec<u8>,
}

impl DecodedComponent {
    /// The bytes decode as a component.
    #[verifier::type_invariant]
    spec fn decoded_from_source(self) -> bool {
        wasm_decoded_kind(self.source@) == Some(false)
    }
}

impl DecodedPackage {
    /// The bytes decode as a WIT package.
    #[verifier::type_invariant]
    spec fn decoded_from_source(self) -> bool {
        wasm_decoded_kind(self.source@) == Some(true)
    }
}

impl View for DecodedComponent {
    type V = Seq<u8>;

    closed spec fn view(&self) -> Seq<u8> {
        self.source@
    }
}

impl View for DecodedPackage {
    type V = Seq<u8>;

    closed spec fn view(&self) -> Seq<u8> {
        self.source@
    }
}

/// A decoded binary: a component, or an encoded WIT package.
pub enum Decoded {
    Component(DecodedComponent),
    WitPackage(DecodedPackage),
}

/// Calls `wit_component::decode` and tells its two outcomes apart, keeping
/// the decoded bytes beside the result. Trusted: whether decoding succeeds,
/// and which kind it finds, depends on the bytes alone.
#[verifier::external_body]
fn decode_wasm(bytes: &[u8]) -> (r: Result<Decoded, anyhow::Error>)
    ensures
        match r {
            Ok(Decoded::Component(c)) => wasm_decoded_kind(bytes@) == Some(false) && c@ == bytes@,
            Ok(Decoded::WitPackage(p)) => wasm_decoded_kind(bytes@) == Some(true) && p@ == bytes@,
            Err(_) => wasm_decoded_kind(bytes@) is None,
        },
{
    match wit_component::decode(bytes) {
        Ok(wit_component::DecodedWasm::Component(resolve, world)) => {
            Ok(Decoded::Component(DecodedComponent { resolve, world, source: bytes.to_vec() }))
        },
        Ok(wit_component::DecodedWasm::WitPackage(resolve, package)) => {
            Ok(Decoded::WitPackage(DecodedPackage { resolve, package, source: bytes.to_vec() }))
        },
        Err(e) => Err(e),
    }
}

/// Calls `Resolve::name_world_key` on each export key of the component's
/// world, in the world's order. Trusted: the names depend on the decoded
/// bytes alone. The world handle comes from the same decode as the
/// `Resolve`, and the decoder names every interface a world refers to by
/// key, so neither the lookup nor the naming fails.
#[verifier::external_body]
fn world_export_names(c: &DecodedComponent) -> (r: Vec<String>)
    ensures
        r.deep_view() == wasm_world_exports(c@),
{
    c.resolve.worlds[c.world].exports.keys().map(|key| c.resolve.name_world_key(key)).collect()
}

/// Calls `Resolve::name_world_key` on each import key of the component's
/// world, in the world's order (see `world_export_names`).
#[verifier::external_body]
fn world_import_names(c: &DecodedComponent) -> (r: Vec<String>)
    ensures
        r.deep_view() == wasm_world_imports(c@),
{
    c.resolve.worlds[c.world].imports.keys().map(|key| c.resolve.name_world_key(key)).collect()
}

/// Reads the package's name: namespace, name, and version through its
/// `Display`. Trusted: the name depends on the decoded bytes alone.
#[verifier::external_body]
fn package_name_parts(p: &DecodedPackage) -> (r: (String, String, Option<String>))
    ensures
        (r.0@, r.1@, r.2.deep_view()) == wasm_package_name(p@),
{
    let name = &p.resolve.packages[p.package].name;
    (name.namespace.clone(), name.name.clone(), name.version.as_ref().map(|v| v.to_string()))
}

/// The package's worlds in the package's order, each with its name and the
/// `Resolve::name_world_key` names of its exports. Trusted: they depend on
/// the decoded bytes alone; every handle comes from the same decode.
#[verifier::external_body]
fn package_worlds(p: &DecodedPackage) -> (r: Vec<(String, Vec<String>)>)
    ensures
        r.deep_view() == wasm_package_worlds(p@),
{
    let res = &p.resolve;
    res.packages[p.package].worlds.values().map(|w| {
        (res.worlds[*w].name.clone(), res.worlds[*w].exports.keys().map(|key| res.name_world_key(key)).collect())
    }).collect()
}

/// Calls `Resolve::id_of` on each of the package's interfaces, in the
/// package's order. Trusted: the ids depend on the decoded bytes alone;
/// every interface of a decoded package belongs to it, so `id_of` finds
/// its package.
#[verifier::external_body]
fn package_interface_ids(p: &DecodedPackage) -> (r: Vec<Option<String>>)
    ensures
        r.deep_view() == wasm_interface_ids(p@),
{
    p.resolve.packages[p.package].interfaces.values().map(|i| p.resolve.id_of(*i)).collect()
}

/// The fully qualified name of a world of a package:
/// `namespace:name/world`, followed by `@version` when there is one.
pub open spec fn qualified_world_name(
    namespace: Seq<char>,
    name: Seq<char>,
    version: Option<Seq<char>>,
    world: Seq<char>,
) -> Seq<char> {
    namespace + seq![':'] + name + seq!['/'] + world + match version {
        Some(v) => seq!['@'] + v,
        None => Seq::empty(),
    }
}

/// What a package's worlds contribute, world by world: the world's exports,
/// then its own qualified name.
pub open spec fn world_candidates(
    namespace: Seq<char>,
    name: Seq<char>,
    version: Option<Seq<char>>,
    worlds: Seq<(Seq<char>, Seq<Seq<char>>)>,
) -> Seq<Seq<char>>
    decreases worlds.len(),
{
    if worlds.len() == 0 {
        Seq::empty()
    } else {
        world_candidates(namespace, name, version, worlds.drop_last()) + worlds.last().1 + seq![
            qualified_world_name(namespace, name, version, worlds.last().0),
        ]
    }
}

/// The ids of the named interfaces, in order.
pub open spec fn present_ids(ids: Seq<Option<Seq<char>>>) -> Seq<Seq<char>>
    decreases ids.len(),
{
    if ids.len() == 0 {
        Seq::empty()
    } else {
        present_ids(ids.drop_last()) + match ids.last() {
            Some(id) => seq![id],
            None => Seq::empty(),
        }
    }
}

/// Adds `x` unless it is already there.
pub open spec fn push_unique_spec(d: Seq<Seq<char>>, x: Seq<char>) -> Seq<Seq<char>> {
    if d.contains(x) {
        d
    } else {
        d.push(x)
    }
}

/// Each name once, at its first occurrence.
pub open spec fn dedup(s: Seq<Seq<char>>) -> Seq<Seq<char>>
    decreases s.len(),
{
    if s.len() == 0 {
        Seq::empty()
    } else {
        push_unique_spec(dedup(s.drop_last()), s.last())
    }
}

/// The exports recorded for a WIT package: every world's exports and
/// qualified name, then every named interface, each name once.
pub open spec fn package_exports(
    namespace: Seq<char>,
    name: Seq<char>,
    version: Option<Seq<char>>,
    worlds: Seq<(Seq<char>, Seq<Seq<char>>)>,
    interface_ids: Seq<Option<Seq<char>>>,
) -> Seq<Seq<char>> {
    dedup(world_candidates(namespace, name, version, worlds) + present_ids(interface_ids))
}

/// No name occurs twice.
pub open spec fn distinct(s: Seq<Seq<char>>) -> bool {
    forall|i: int, j: int| 0 <= i < j < s.len() ==> s[i] != s[j]
}

/// Deduplication leaves each name once and keeps exactly the names given.
pub proof fn lemma_dedup(s: Seq<Seq<char>>)
    ensures
        distinct(dedup(s)),
        forall|x: Seq<char>| dedup(s).contains(x) <==> s.contains(x),
    decreases s.len(),
{
    if s.len() > 0 {
        let p = s.drop_last();
        lemma_dedup(p);
        let d = dedup(p);
        assert forall|x: Seq<char>| dedup(s).contains(x) <==> s.contains(x) by {
            if s.contains(x) && x != s.last() {
                let k = choose|k: int| 0 <= k < s.len() && s[k] == x;
                assert(p[k] == x);
            }
            if p.contains(x) {
                let k = choose|k: int| 0 <= k < p.len() && p[k] == x;
                assert(s[k] == x);
            }
            if !d.contains(s.last()) {
                assert(d.push(s.last())[d.len() as int] == s.last());
                if d.push(s.last()).contains(x) && x != s.last() {
                    let k = choose|k: int| 0 <= k < d.len() + 1 && d.push(s.last())[k] == x;
                    assert(d[k] == x);
                }
                if d.contains(x) {
                    let k = choose|k: int| 0 <= k < d.len() && d[k] == x;
                    assert(d.push(s.last())[k] == x);
                }
            }
            assert(s[s.len() - 1] == s.last());
        }
    }
}

/// Appends `x` to `out` unless an equal name is already there.
fn push_unique(out: &mut Vec<String>, x: String)
    ensures
        final(out).deep_view() == push_unique_spec(old(out).deep_view(), x@),
{
    let ghost d = out.deep_view();
    let mut k: usize = 0;
    while k < out.len()
        invariant
            k <= out@.len(),
            d == out.deep_view(),
            d.len() == out@.len(),
            forall|i: int| 0 <= i < k ==> d[i] != x@,
        decreases out@.len() - k,
    {
        if out[k] == x {
            assert(d[k as int] == x@);
            assert(d.contains(x@));
            return;
        }
        k = k + 1;
    }
    assert(!d.contains(x@));
    out.push(x);
    assert(out.deep_view() =~= d.push(x@));
}

/// Builds `namespace:name/world[@version]`.
fn qualified_world(namespace: &str, name: &str, version: &Option<String>, world: &str) -> (q: String)
    ensures
        q@ == qualified_world_name(namespace@, name@, version.deep_view(), world@),
{
    let mut q = namespace.to_owned();
    crate::text::push_char(&mut q, ':');
    q.append(name);
    crate::text::push_char(&mut q, '/');
    q.append(world);
    match version {
        Some(v) => {
            crate::text::push_char(&mut q, '@');
            q.append(v.as_str());
        },
        None => {},
    }
    assert(q@ =~= qualified_world_name(namespace@, name@, version.deep_view(), world@));
    q
}

/// The exports recorded for a WIT package (see `package_exports`), from
/// the package name, its worlds with their exports, and its interfaces' ids.
pub fn package_export_names(
    namespace: &str,
    name: &str,
    version: &Option<String>,
    worlds: &Vec<(String, Vec<String>)>,
    interface_ids: &Vec<Option<String>>,
) -> (exports: Vec<String>)
    ensures
        exports.deep_view() == package_exports(
            namespace@,
            name@,
            version.deep_view(),
            worlds.deep_view(),
            interface_ids.deep_view(),
        ),
{
    let ghost wv = worlds.deep_view();
    let ghost iv = interface_ids.deep_view();
    let ghost ver = version.deep_view();
    let mut out: Vec<String> = Vec::new();
    let ghost mut cands: Seq<Seq<char>> = Seq::empty();
    let mut i: usize = 0;
    while i < worlds.len()
        invariant
            i <= worlds@.len(),
            wv == worlds.deep_view(),
            wv.len() == worlds@.len(),
            ver == version.deep_view(),
            cands == world_candidates(namespace@, name@, ver, wv.subrange(0, i as int)),
            out.deep_view() == dedup(cands),
        decreases worlds@.len() - i,
    {
        let world = &worlds[i];
        let ghost base = cands;
        let mut j: usize = 0;
        while j < world.1.len()
            invariant
                j <= world.1@.len(),
                world == worlds@[i as int],
                wv == worlds.deep_view(),
                i < wv.len(),
                wv[i as int].1 == world.1.deep_view(),
                wv[i as int].1.len() == world.1@.len(),
                cands == base + wv[i as int].1.subrange(0, j as int),
                out.deep_view() == dedup(cands),
            decreases world.1@.len() - j,
        {
            let export = world.1[j].clone();
            proof {
                assert(export@ == wv[i as int].1[j as int]);
                let next = cands.push(export@);
                assert(next.drop_last() =~= cands);
            }
            push_unique(&mut out, export);
            proof {
                cands = cands.push(wv[i as int].1[j as int]);
            }
            j = j + 1;
            assert(cands =~= base + wv[i as int].1.subrange(0, j as int));
        }
        let q = qualified_world(namespace, name, version, world.0.as_str());
        proof {
            assert(wv[i as int].1.subrange(0, j as int) =~= wv[i as int].1);
            let next = cands.push(q@);
            assert(next.drop_last() =~= cands);
        }
        push_unique(&mut out, q);
        proof {
            let wq = qualified_world_name(namespace@, name@, ver, wv[i as int].0);
            cands = cands.push(wq);
            let sub = wv.subrange(0, i + 1);
            assert(sub.drop_last() =~= wv.subrange(0, i as int));
            assert(sub.last() == wv[i as int]);
            assert(cands =~= world_candidates(namespace@, name@, ver, sub));
        }
        i = i + 1;
    }
    assert(wv.subrange(0, i as int) =~= wv);
    let ghost worlds_part = cands;
    let mut k: usize = 0;
    while k < interface_ids.len()
        invariant
            k <= interface_ids@.len(),
            iv == interface_ids.deep_view(),
            iv.len() == interface_ids@.len(),
            cands == worlds_part + present_ids(iv.subrange(0, k as int)),
            out.deep_view() == dedup(cands),
        decreases interface_ids@.len() - k,
    {
        let ghost before = cands;
        proof {
            let sub = iv.subrange(0, k + 1);
            assert(sub.drop_last() =~= iv.subrange(0, k as int));
            assert(sub.last() == iv[k as int]);
        }
        match &interface_ids[k] {
            Some(id) => {
                let owned = id.clone();
                proof {
                    let next = cands.push(owned@);
                    assert(next.drop_last() =~= cands);
                }
                push_unique(&mut out, owned);
                proof {
                    cands = cands.push(iv[k as int]->Some_0);
                }
            },
            None => {},
        }
        k = k + 1;
        assert(cands =~= worlds_part + present_ids(iv.subrange(0, k as int)));
    }
    assert(iv.subrange(0, k as int) =~= iv);
    out
}

/// What a decodable binary's component information is: a component's
/// world exports and imports, or for a WIT package `package_exports` of its
/// parts and no imports; never a target.
pub open spec fn info_of(bytes: Seq<u8>) -> ComponentInfoView {
    if wasm_decoded_kind(bytes) == Some(true) {
        ComponentInfoView {
            exports: package_exports(
                wasm_package_name(bytes).0,
                wasm_package_name(bytes).1,
                wasm_package_name(bytes).2,
                wasm_package_worlds(bytes),
                wasm_interface_ids(bytes),
            ),
            imports: Seq::empty(),
            target: None,
        }
    } else {
        ComponentInfoView {
            exports: wasm_world_exports(bytes),
            imports: wasm_world_imports(bytes),
            target: None,
        }
    }
}

/// A component's information is its world's export names as exports and
/// its world's import names as imports, with no target.
pub proof fn lemma_component_info(bytes: Seq<u8>)
    requires
        wasm_decoded_kind(bytes) == Some(false),
    ensures
        info_of(bytes).exports == wasm_world_exports(bytes),
        info_of(bytes).imports == wasm_world_imports(bytes),
        info_of(bytes).target is None,
{
}

/// What a package's worlds contribute holds exactly each world's exports
/// and each world's qualified name.
pub proof fn lemma_world_candidates(
    namespace: Seq<char>,
    name: Seq<char>,
    version: Option<Seq<char>>,
    worlds: Seq<(Seq<char>, Seq<Seq<char>>)>,
    t: Seq<char>,
)
    ensures
        world_candidates(namespace, name, version, worlds).contains(t) <==> exists|w: int|
            0 <= w < worlds.len() && (#[trigger] worlds[w].1.contains(t) || t == qualified_world_name(
                namespace,
                name,
                version,
                worlds[w].0,
            )),
    decreases worlds.len(),
{
    if worlds.len() > 0 {
        let p = worlds.drop_last();
        let last = worlds.last();
        let c = world_candidates(namespace, name, version, p);
        let q = qualified_world_name(namespace, name, version, last.0);
        lemma_world_candidates(namespace, name, version, p, t);
        let all = c + last.1 + seq![q];
        assert(world_candidates(namespace, name, version, worlds) == all);
        if all.contains(t) {
            let k = choose|k: int| 0 <= k < all.len() && all[k] == t;
            if k < c.len() {
                assert(c[k] == t);
                let w = choose|w: int|
                    0 <= w < p.len() && (#[trigger] p[w].1.contains(t) || t == qualified_world_name(
                        namespace,
                        name,
                        version,
                        p[w].0,
                    ));
                assert(worlds[w] == p[w]);
            } else if k < c.len() + last.1.len() {
                assert(last.1[k - c.len()] == t);
                assert(worlds[worlds.len() - 1] == last);
                assert(worlds[worlds.len() - 1].1.contains(t));
            } else {
                assert(worlds[worlds.len() - 1] == last);
            }
        }
        assert forall|w: int|
            0 <= w < worlds.len() && (#[trigger] worlds[w].1.contains(t) || t == qualified_world_name(
                namespace,
                name,
                version,
                worlds[w].0,
            )) implies all.contains(t) by {
            if w < p.len() {
                assert(p[w] == worlds[w]);
                assert(p[w].1.contains(t) || t == qualified_world_name(namespace, name, version, p[w].0));
                assert(c.contains(t));
                let k = choose|k: int| 0 <= k < c.len() && c[k] == t;
                assert(all[k] == t);
            } else {
                assert(worlds[w] == last);
                if last.1.contains(t) {
                    let k = choose|k: int| 0 <= k < last.1.len() && last.1[k] == t;
                    assert(all[c.len() + k] == t);
                } else {
                    assert(all[all.len() - 1] == q);
                }
            }
        }
    }
}

/// The ids of the named interfaces are exactly the present ones.
pub proof fn lemma_present_ids(ids: Seq<Option<Seq<char>>>, t: Seq<char>)
    ensures
        present_ids(ids).contains(t) <==> exists|i: int| 0 <= i < ids.len() && #[trigger] ids[i] == Some(t),
    decreases ids.len(),
{
    if ids.len() > 0 {
        let p = ids.drop_last();
        lemma_present_ids(p, t);
        let c = present_ids(p);
        if present_ids(ids).contains(t) {
            let k = choose|k: int| 0 <= k < present_ids(ids).len() && present_ids(ids)[k] == t;
            if k < c.len() {
                assert(c[k] == t);
                let i = choose|i: int| 0 <= i < p.len() && #[trigger] p[i] == Some(t);
                assert(ids[i] == p[i]);
            } else {
                assert(ids[ids.len() - 1] == Some(t));
            }
        }
        if exists|i: int| 0 <= i < ids.len() && #[trigger] ids[i] == Some(t) {
            let i = choose|i: int| 0 <= i < ids.len() && #[trigger] ids[i] == Some(t);
            if i < p.len() {
                assert(p[i] == ids[i]);
                let k = choose|k: int| 0 <= k < c.len() && c[k] == t;
                assert(present_ids(ids)[k] == t);
            } else {
                let n = present_ids(ids).len();
                assert(present_ids(ids)[n - 1] == t);
            }
        }
    }
}

/// A WIT package's information has no imports and no target, lists each
/// export once, and exports exactly: every export of every world of the
/// package, every world's qualified name, and every named interface's id.
pub proof fn lemma_package_info(bytes: Seq<u8>, t: Seq<char>)
    requires
        wasm_decoded_kind(bytes) == Some(true),
    ensures
        info_of(bytes).imports.len() == 0,
        info_of(bytes).target is None,
        distinct(info_of(bytes).exports),
        info_of(bytes).exports.contains(t) <==> (exists|w: int|
            0 <= w < wasm_package_worlds(bytes).len() && (#[trigger] wasm_package_worlds(bytes)[w].1.contains(t)
                || t == qualified_world_name(
                wasm_package_name(bytes).0,
                wasm_package_name(bytes).1,
                wasm_package_name(bytes).2,
                wasm_package_worlds(bytes)[w].0,
            ))) || (exists|i: int| 0 <= i < wasm_interface_ids(bytes).len() && #[trigger] wasm_interface_ids(bytes)[i] == Some(t)),
{
    let (ns, n, v) = wasm_package_name(bytes);
    let worlds = wasm_package_worlds(bytes);
    let ids = wasm_interface_ids(bytes);
    let cands = world_candidates(ns, n, v, worlds) + present_ids(ids);
    lemma_dedup(cands);
    lemma_world_candidates(ns, n, v, worlds, t);
    lemma_present_ids(ids, t);
    let a = world_candidates(ns, n, v, worlds);
    let b = present_ids(ids);
    if cands.contains(t) {
        let k = choose|k: int| 0 <= k < cands.len() && cands[k] == t;
        if k < a.len() {
            assert(a[k] == t);
        } else {
            assert(b[k - a.len()] == t);
        }
    }
    if a.contains(t) {
        let k = choose|k: int| 0 <= k < a.len() && a[k] == t;
        assert(cands[k] == t);
    }
    if b.contains(t) {
        let k = choose|k: int| 0 <= k < b.len() && b[k] == t;
        assert(cands[a.len() + k] == t);
    }
}

/// A WIT package's information lists no imports and each export once.
pub proof fn lemma_package_info_distinct(bytes: Seq<u8>)
    requires
        wasm_decoded_kind(bytes) == Some(true),
    ensures
        info_of(bytes).imports.len() == 0,
        distinct(info_of(bytes).exports),
{
    let (ns, n, v) = wasm_package_name(bytes);
    lemma_dedup(world_candidates(ns, n, v, wasm_package_worlds(bytes)) + present_ids(wasm_interface_ids(bytes)));
}

/// Extract component info (exports and imports) from WASM bytes: exactly
/// `info_of` the bytes when they decode.
pub fn extract_component_info(wasm_bytes: &[u8]) -> (r: Result<ComponentInfo, OciError>)
    ensures
        match wasm_decoded_kind(wasm_bytes@) {
            None => r matches Err(OciError::InvalidComponent(_)),
            Some(_) => r matches Ok(info) && info@ == info_of(wasm_bytes@),
        },
        wasm_decoded_kind(wasm_bytes@) == Some(false) ==> (r matches Ok(info) && info@.exports
            == wasm_world_exports(wasm_bytes@) && info@.imports == wasm_world_imports(wasm_bytes@)
            && info@.target is None),
{
    match decode_wasm(wasm_bytes) {
        Err(e) => Err(OciError::InvalidComponent(error_text(&e))),
        Ok(Decoded::Component(c)) => {
            let exports = world_export_names(&c);
            let imports = world_import_names(&c);
            Ok(ComponentInfo { exports, imports, target: None })
        },
        Ok(Decoded::WitPackage(p)) => {
            let (namespace, name, version) = package_name_parts(&p);
            let worlds = package_worlds(&p);
            let ids = package_interface_ids(&p);
            let exports = package_export_names(namespace.as_str(), name.as_str(), &version, &worlds, &ids);
            let info = ComponentInfo { exports, imports: Vec::new(), target: None };
            assert(info@.imports =~= Seq::<Seq<char>>::empty());
            Ok(info)
        },
    }
}

} // verus!
