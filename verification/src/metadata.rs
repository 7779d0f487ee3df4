//! The component's identity: namespace, name and version, read from the
//! metadata embedded in the binary.

use vstd::prelude::*;

use crate::error::OciError;

verus! {

/// The component name and version recorded in a Wasm binary's metadata, as
/// `wasm_metadata` reads them; `None` when the binary cannot be parsed.
pub uninterp spec fn wasm_name_and_version(bytes: Seq<u8>) -> Option<(Option<Seq<char>>, Option<Seq<char>>)>;

/// Calls `wasm_metadata::Payload::from_binary` and reads the top-level
/// metadata's `name` and `version` (the version through its `Display`).
/// Trusted: the outcome depends on the bytes alone.
#[verifier::external_body]
pub(crate) fn read_name_and_version(bytes: &[u8]) -> (r: Result<(Option<String>, Option<String>), anyhow::Error>)
    ensures
        match r {
            Ok((name, version)) => wasm_name_and_version(bytes@) == Some(
                (name.deep_view(), version.deep_view()),
            ),
            Err(_) => wasm_name_and_version(bytes@) is None,
        },
{
    match wasm_metadata::Payload::from_binary(bytes) {
        Ok(payload) => {
            let meta = payload.metadata();
            Ok((meta.name.clone(), meta.version.as_ref().map(|v| v.to_string())))
        },
        Err(e) => Err(e),
    }
}

/// The position of the first occurrence of `c` in `s`.
pub open spec fn find_char(s: Seq<char>, c: char) -> Option<int>
    decreases s.len(),
{
    if s.len() == 0 {
        None
    } else if s[0] == c {
        Some(0)
    } else {
        match find_char(s.drop_first(), c) {
            Some(i) => Some(i + 1),
            None => None,
        }
    }
}

/// A scan that found no `c` before `i` settles `find_char`.
pub proof fn lemma_find_char(s: Seq<char>, c: char, i: int)
    requires
        0 <= i <= s.len(),
        forall|j: int| 0 <= j < i ==> s[j] != c,
    ensures
        i < s.len() && s[i] == c ==> find_char(s, c) == Some(i),
        i == s.len() ==> find_char(s, c) is None,
    decreases i,
{
    if i > 0 {
        let t = s.drop_first();
        assert forall|j: int| 0 <= j < i - 1 implies t[j] != c by {
            assert(t[j] == s[j + 1]);
        }
        lemma_find_char(t, c, i - 1);
    }
}

/// The first occurrence lies inside the sequence and holds `c`.
pub proof fn lemma_find_char_in_range(s: Seq<char>, c: char)
    ensures
        find_char(s, c) matches Some(i) ==> 0 <= i < s.len() && s[i] == c,
    decreases s.len(),
{
    if s.len() > 0 && s[0] != c {
        lemma_find_char_in_range(s.drop_first(), c);
    }
}

/// A sequence without `c` has no first occurrence of it.
pub proof fn lemma_find_char_absent(s: Seq<char>, c: char)
    requires
        !s.contains(c),
    ensures
        find_char(s, c) is None,
{
    assert forall|j: int| 0 <= j < s.len() implies s[j] != c by {
        if s[j] == c {
            assert(s.contains(c));
        }
    }
    lemma_find_char(s, c, s.len() as int);
}

/// The first occurrence of `c` in `s`, computed.
pub fn find_char_index(s: &str, c: char) -> (r: Option<usize>)
    ensures
        r is None ==> find_char(s@, c) is None,
        r matches Some(i) ==> find_char(s@, c) == Some(i as int) && i < s@.len() && s@[i as int] == c,
{
    let n = s.unicode_len();
    let mut i: usize = 0;
    while i < n
        invariant
            n == s@.len(),
            i <= n,
            forall|j: int| 0 <= j < i ==> s@[j] != c,
        decreases n - i,
    {
        if s.get_char(i) == c {
            proof {
                lemma_find_char(s@, c, i as int);
            }
            return Some(i);
        }
        i = i + 1;
    }
    proof {
        lemma_find_char(s@, c, i as int);
    }
    None
}

/// Namespace and name of a full component name: split at the first `:`,
/// or the namespace `local` when there is none.
pub open spec fn split_name(full: Seq<char>) -> (Seq<char>, Seq<char>) {
    match find_char(full, ':') {
        Some(i) => (full.subrange(0, i), full.subrange(i + 1, full.len() as int)),
        None => ("local"@, full),
    }
}

/// Splitting a full name loses nothing: with a `:`, the namespace (free of
/// `:`), a `:` and the name give back the full name; without one, the name
/// is the full name.
pub proof fn lemma_split_name(full: Seq<char>)
    ensures
        full.contains(':') ==> !split_name(full).0.contains(':') && split_name(full).0 + seq![':']
            + split_name(full).1 == full,
        !full.contains(':') ==> split_name(full).1 == full,
{
    if full.contains(':') {
        let k = choose|k: int| 0 <= k < full.len() && full[k] == ':';
        lemma_find_char_in_range(full, ':');
        match find_char(full, ':') {
            Some(i) => {
                lemma_find_char_first(full, ':');
                assert(full.subrange(0, i) + seq![':'] + full.subrange(i + 1, full.len() as int) =~= full);
                assert forall|j: int| 0 <= j < i implies full.subrange(0, i)[j] != ':' by {}
            },
            None => {
                lemma_find_char_absent_inverse(full, ':');
            },
        }
    } else {
        lemma_find_char_absent(full, ':');
    }
}

/// Nothing before the first occurrence equals `c`.
pub proof fn lemma_find_char_first(s: Seq<char>, c: char)
    ensures
        find_char(s, c) matches Some(i) ==> forall|j: int| 0 <= j < i ==> s[j] != c,
    decreases s.len(),
{
    lemma_find_char_in_range(s, c);
    if s.len() > 0 && s[0] != c {
        lemma_find_char_first(s.drop_first(), c);
        if let Some(i) = find_char(s, c) {
            assert forall|j: int| 0 <= j < i implies s[j] != c by {
                if j > 0 {
                    assert(s[j] == s.drop_first()[j - 1]);
                }
            }
        }
    }
}

/// When there is no first occurrence, there is no occurrence.
pub proof fn lemma_find_char_absent_inverse(s: Seq<char>, c: char)
    ensures
        find_char(s, c) is None ==> !s.contains(c),
    decreases s.len(),
{
    if s.len() > 0 && s[0] != c {
        lemma_find_char_absent_inverse(s.drop_first(), c);
        if find_char(s, c) is None && s.contains(c) {
            let k = choose|k: int| 0 <= k < s.len() && s[k] == c;
            assert(s.drop_first()[k - 1] == c);
        }
    }
}

/// Namespace, name and version of a component from its recorded name and
/// version, with the file name standing in for a missing name and `0.0.0`
/// for a missing version; `None` when there is no name at all.
pub open spec fn identity_of(
    name: Option<Seq<char>>,
    version: Option<Seq<char>>,
    fallback: Option<Seq<char>>,
) -> Option<(Seq<char>, Seq<char>, Seq<char>)> {
    let full = match name {
        Some(n) => Some(n),
        None => fallback,
    };
    match full {
        None => None,
        Some(f) => Some(
            (
                split_name(f).0,
                split_name(f).1,
                match version {
                    Some(v) => v,
                    None => "0.0.0"@,
                },
            ),
        ),
    }
}

/// The views of an optional borrowed string.
pub open spec fn opt_str_view(s: Option<&str>) -> Option<Seq<char>> {
    match s {
        Some(t) => Some(t@),
        None => None,
    }
}

/// Namespace, name and version from a recorded name and version (see
/// `identity_of`); fails with `MissingName` exactly when neither a name nor
/// a fallback is given.
pub fn component_identity(
    name: Option<String>,
    version: Option<String>,
    filename_fallback: Option<&str>,
) -> (r: Result<(String, String, String), OciError>)
    ensures
        match identity_of(name.deep_view(), version.deep_view(), opt_str_view(filename_fallback)) {
            Some((ns, n, v)) => r matches Ok((rns, rn, rv)) && rns@ == ns && rn@ == n && rv@ == v,
            None => r matches Err(OciError::MissingName),
        },
        r matches Ok((_, _, rv)) ==> rv@ == match version {
            Some(v) => v@,
            None => "0.0.0"@,
        },
{
    let full_name: String = match name {
        Some(n) => n,
        None => match filename_fallback {
            Some(f) => f.to_owned(),
            None => {
                return Err(OciError::MissingName);
            },
        },
    };
    let (namespace, short_name) = match find_char_index(full_name.as_str(), ':') {
        Some(colon) => {
            let len = full_name.as_str().unicode_len();
            (
                full_name.as_str().substring_char(0, colon).to_owned(),
                full_name.as_str().substring_char(colon + 1, len).to_owned(),
            )
        },
        None => ("local".to_owned(), full_name),
    };
    assert(namespace@ == split_name(full_name@).0);
    assert(short_name@ == split_name(full_name@).1);
    let version = match version {
        Some(v) => v,
        None => "0.0.0".to_owned(),
    };
    Ok((namespace, short_name, version))
}

/// The identity of a component: there is one exactly when a name is
/// recorded or a file name is given; its version is the recorded version, or
/// `0.0.0` when none is recorded, wherever the name came from; and its
/// namespace and name come from the recorded name when there is one, else
/// from the file name: split at the first `:` (the namespace free of `:`),
/// or the namespace `local` and the whole name when there is no `:`.
pub proof fn lemma_identity(
    name: Option<Seq<char>>,
    version: Option<Seq<char>>,
    fallback: Option<Seq<char>>,
)
    ensures
        identity_of(name, version, fallback) is Some <==> (name is Some || fallback is Some),
        identity_of(name, version, fallback) matches Some((ns, n, v)) ==> {
            let full = match name {
                Some(x) => x,
                None => match fallback {
                    Some(f) => f,
                    None => Seq::empty(),
                },
            };
            &&& v == match version {
                Some(x) => x,
                None => "0.0.0"@,
            }
            &&& full.contains(':') ==> !ns.contains(':') && ns + seq![':'] + n == full
            &&& !full.contains(':') ==> ns == "local"@ && n == full
        },
{
    let full = match name {
        Some(x) => x,
        None => match fallback {
            Some(f) => f,
            None => Seq::empty(),
        },
    };
    lemma_split_name(full);
    if !full.contains(':') {
        lemma_find_char_absent(full, ':');
    }
}

} // verus!
