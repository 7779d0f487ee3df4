//! The lexical order of strings that tag lists are kept and paged in, and
//! sorted insertion into such a list.

use vstd::prelude::*;

verus! {

/// Lexicographic order of strings by code point, the order of Rust's `str`
/// comparison: `a` comes strictly before `b`.
pub open spec fn lex_less(a: Seq<char>, b: Seq<char>) -> bool
    decreases a.len(),
{
    if a.len() == 0 {
        b.len() > 0
    } else if b.len() == 0 {
        false
    } else if a[0] != b[0] {
        (a[0] as int) < (b[0] as int)
    } else {
        lex_less(a.drop_first(), b.drop_first())
    }
}

/// No string comes before itself.
pub proof fn lemma_lex_irreflexive(a: Seq<char>)
    ensures
        !lex_less(a, a),
    decreases a.len(),
{
    if a.len() > 0 {
        lemma_lex_irreflexive(a.drop_first());
    }
}

/// Of two different strings exactly one comes first.
pub proof fn lemma_lex_total(a: Seq<char>, b: Seq<char>)
    ensures
        a != b ==> lex_less(a, b) || lex_less(b, a),
        lex_less(a, b) ==> !lex_less(b, a),
    decreases a.len(),
{
    if a.len() == 0 && b.len() == 0 {
        assert(a =~= b);
    }
    if a.len() > 0 && b.len() > 0 && a[0] != b[0] {
        assert((a[0] as int) != (b[0] as int));
    }
    if a.len() > 0 && b.len() > 0 && a[0] == b[0] {
        lemma_lex_total(a.drop_first(), b.drop_first());
        if a.drop_first() == b.drop_first() {
            assert(a =~= seq![a[0]] + a.drop_first());
            assert(b =~= seq![b[0]] + b.drop_first());
        }
    }
}

/// The order is transitive.
pub proof fn lemma_lex_trans(a: Seq<char>, b: Seq<char>, c: Seq<char>)
    requires
        lex_less(a, b),
        lex_less(b, c),
    ensures
        lex_less(a, c),
    decreases a.len(),
{
    if a.len() > 0 && a[0] == b[0] && b[0] == c[0] {
        lemma_lex_trans(a.drop_first(), b.drop_first(), c.drop_first());
    }
}

/// Dropping a common prefix does not change the order.
pub proof fn lemma_lex_less_skip(a: Seq<char>, b: Seq<char>, i: int)
    requires
        0 <= i <= a.len(),
        i <= b.len(),
        a.subrange(0, i) == b.subrange(0, i),
    ensures
        lex_less(a, b) == lex_less(a.skip(i), b.skip(i)),
    decreases i,
{
    if i > 0 {
        assert(a[0] == a.subrange(0, i)[0]);
        assert(b[0] == b.subrange(0, i)[0]);
        assert(a.drop_first().subrange(0, i - 1) =~= a.subrange(0, i).drop_first());
        assert(b.drop_first().subrange(0, i - 1) =~= b.subrange(0, i).drop_first());
        lemma_lex_less_skip(a.drop_first(), b.drop_first(), i - 1);
        assert(a.drop_first().skip(i - 1) =~= a.skip(i));
        assert(b.drop_first().skip(i - 1) =~= b.skip(i));
    } else {
        assert(a.skip(0) =~= a);
        assert(b.skip(0) =~= b);
    }
}

/// Compares two strings: `a` comes strictly before `b`.
pub fn str_less(a: &str, b: &str) -> (r: bool)
    ensures
        r == lex_less(a@, b@),
{
    let la = a.unicode_len();
    let lb = b.unicode_len();
    let mut i: usize = 0;
    while i < la && i < lb && a.get_char(i) == b.get_char(i)
        invariant
            la == a@.len(),
            lb == b@.len(),
            i <= la,
            i <= lb,
            a@.subrange(0, i as int) == b@.subrange(0, i as int),
        decreases la - i,
    {
        assert(a@.subrange(0, i + 1) =~= a@.subrange(0, i as int).push(a@[i as int]));
        assert(b@.subrange(0, i + 1) =~= b@.subrange(0, i as int).push(b@[i as int]));
        i = i + 1;
    }
    proof {
        lemma_lex_less_skip(a@, b@, i as int);
    }
    if i == la {
        i < lb
    } else if i == lb {
        false
    } else {
        let ca = a.get_char(i);
        let cb = b.get_char(i);
        assert(a@.skip(i as int)[0] == ca);
        assert(b@.skip(i as int)[0] == cb);
        assert((ca as u32) as int == ca as int && (cb as u32) as int == cb as int);
        (ca as u32) < (cb as u32)
    }
}

/// Lexically ascending: no string comes before an earlier one (equal
/// strings may follow each other).
pub open spec fn sorted(s: Seq<Seq<char>>) -> bool {
    forall|i: int, j: int| 0 <= i < j < s.len() ==> !lex_less(#[trigger] s[j], #[trigger] s[i])
}

/// `x` added to an ascending list at its place, after any equal strings.
pub open spec fn insert_sorted(s: Seq<Seq<char>>, x: Seq<char>) -> Seq<Seq<char>>
    decreases s.len(),
{
    if s.len() == 0 {
        seq![x]
    } else if lex_less(x, s[0]) {
        seq![x] + s
    } else {
        seq![s[0]] + insert_sorted(s.drop_first(), x)
    }
}

/// Inserting into an ascending list keeps it ascending; the list grows by
/// one and then holds exactly its old strings and `x`.
pub proof fn lemma_insert_sorted(s: Seq<Seq<char>>, x: Seq<char>)
    requires
        sorted(s),
    ensures
        sorted(insert_sorted(s, x)),
        insert_sorted(s, x).len() == s.len() + 1,
        forall|t: Seq<char>| #[trigger] insert_sorted(s, x).contains(t) <==> (s.contains(t) || t == x),
    decreases s.len(),
{
    let r = insert_sorted(s, x);
    if s.len() == 0 {
        assert(r[0] == x);
    } else if lex_less(x, s[0]) {
        assert forall|i: int, j: int| 0 <= i < j < r.len() implies !lex_less(#[trigger] r[j], #[trigger] r[i]) by {
            if i == 0 {
                if lex_less(r[j], x) {
                    lemma_lex_trans(r[j], x, s[0]);
                    if j == 1 {
                        lemma_lex_irreflexive(s[0]);
                    } else {
                        assert(!lex_less(s[j - 1], s[0]));
                    }
                }
            } else {
                assert(r[i] == s[i - 1] && r[j] == s[j - 1]);
            }
        }
        assert forall|t: Seq<char>| #[trigger] r.contains(t) <==> (s.contains(t) || t == x) by {
            if r.contains(t) && t != x {
                let k = choose|k: int| 0 <= k < r.len() && r[k] == t;
                assert(s[k - 1] == t);
            }
            if s.contains(t) {
                let k = choose|k: int| 0 <= k < s.len() && s[k] == t;
                assert(r[k + 1] == t);
            }
            if t == x {
                assert(r[0] == x);
            }
        }
    } else {
        let d = s.drop_first();
        assert(sorted(d)) by {
            assert forall|i: int, j: int| 0 <= i < j < d.len() implies !lex_less(#[trigger] d[j], #[trigger] d[i]) by {
                assert(d[i] == s[i + 1] && d[j] == s[j + 1]);
            }
        }
        lemma_insert_sorted(d, x);
        let rest = insert_sorted(d, x);
        assert forall|t: Seq<char>| rest.contains(t) implies !lex_less(t, s[0]) by {
            if t != x {
                let k = choose|k: int| 0 <= k < d.len() && d[k] == t;
                assert(s[k + 1] == t);
            }
        }
        assert forall|i: int, j: int| 0 <= i < j < r.len() implies !lex_less(#[trigger] r[j], #[trigger] r[i]) by {
            if i == 0 {
                assert(r[j] == rest[j - 1]);
                assert(rest.contains(rest[j - 1]));
            } else {
                assert(r[i] == rest[i - 1] && r[j] == rest[j - 1]);
            }
        }
        assert forall|t: Seq<char>| #[trigger] r.contains(t) <==> (s.contains(t) || t == x) by {
            if r.contains(t) && t != s[0] {
                let k = choose|k: int| 0 <= k < r.len() && r[k] == t;
                assert(rest[k - 1] == t);
                assert(rest.contains(t));
                if t != x {
                    assert(d.contains(t));
                    let m = choose|m: int| 0 <= m < d.len() && d[m] == t;
                    assert(s[m + 1] == t);
                }
            }
            if r.contains(t) && t == s[0] {
                assert(s[0] == t);
            }
            if s.contains(t) {
                let k = choose|k: int| 0 <= k < s.len() && s[k] == t;
                if k == 0 {
                    assert(r[0] == t);
                } else {
                    assert(d[k - 1] == t);
                    assert(rest.contains(t));
                    let m = choose|m: int| 0 <= m < rest.len() && rest[m] == t;
                    assert(r[m + 1] == t);
                }
            }
            if t == x {
                assert(rest.contains(x));
                let m = choose|m: int| 0 <= m < rest.len() && rest[m] == x;
                assert(r[m + 1] == x);
            }
        }
    }
}

/// Strings that `x` does not come before pass unchanged in front of it.
proof fn lemma_insert_sorted_prefix(s: Seq<Seq<char>>, x: Seq<char>, i: int)
    requires
        0 <= i <= s.len(),
        forall|j: int| 0 <= j < i ==> !lex_less(x, #[trigger] s[j]),
    ensures
        insert_sorted(s, x) == s.take(i) + insert_sorted(s.skip(i), x),
    decreases i,
{
    if i == 0 {
        assert(s.skip(0) =~= s);
        assert(s.take(0) =~= Seq::<Seq<char>>::empty());
    } else {
        assert(!lex_less(x, s[0]));
        let d = s.drop_first();
        assert forall|j: int| 0 <= j < i - 1 implies !lex_less(x, #[trigger] d[j]) by {
            assert(d[j] == s[j + 1]);
        }
        lemma_insert_sorted_prefix(d, x, i - 1);
        assert(d.skip(i - 1) =~= s.skip(i));
        assert(s.take(i) =~= seq![s[0]] + d.take(i - 1));
    }
}

/// Inserts `x` into an ascending list of strings at its place, after any
/// equal strings.
pub fn insert_sorted_vec(v: &mut Vec<String>, x: String)
    ensures
        final(v).deep_view() == insert_sorted(old(v).deep_view(), x@),
{
    let ghost s = v.deep_view();
    let mut i: usize = 0;
    while i < v.len() && !str_less(x.as_str(), v[i].as_str())
        invariant
            i <= v@.len(),
            s == v.deep_view(),
            s.len() == v@.len(),
            forall|j: int| 0 <= j < i ==> !lex_less(x@, #[trigger] s[j]),
        decreases v@.len() - i,
    {
        assert(s[i as int] == v@[i as int]@);
        i = i + 1;
    }
    proof {
        lemma_insert_sorted_prefix(s, x@, i as int);
    }
    let ghost t = s.skip(i as int);
    if i < v.len() {
        assert(t[0] == v@[i as int]@);
    }
    let ghost xv = x@;
    v.insert(i, x);
    assert(v.deep_view() =~= s.take(i as int) + seq![xv] + s.skip(i as int));
    assert(i < s.len() ==> seq![xv] + t == insert_sorted(t, xv));
}

} // verus!
