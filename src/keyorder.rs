//! The order in which request parameters are signed: byte-wise lexicographic
//! order of the keys' UTF-8 encodings, as `String`'s own `Ord` compares them.

use vstd::prelude::*;
use vstd::utf8::{encode_utf8, encode_utf8_decode_utf8};

verus! {

/// Lexicographic order on byte sequences; a proper prefix comes first.
pub open spec fn bytes_lt(a: Seq<u8>, b: Seq<u8>) -> bool
    decreases a.len(),
{
    if a.len() == 0 {
        b.len() > 0
    } else if b.len() == 0 {
        false
    } else if a[0] != b[0] {
        a[0] < b[0]
    } else {
        bytes_lt(a.drop_first(), b.drop_first())
    }
}

/// `a` sorts before `b` when its UTF-8 encoding is lexicographically smaller.
pub open spec fn key_lt(a: Seq<char>, b: Seq<char>) -> bool {
    bytes_lt(encode_utf8(a), encode_utf8(b))
}

/// The keys of `s` are strictly ascending, hence also free of repeats.
pub open spec fn strictly_ascending(s: Seq<Seq<char>>) -> bool {
    forall|i: int, j: int| 0 <= i < j < s.len() ==> key_lt(#[trigger] s[i], #[trigger] s[j])
}

/// The views of a sequence of strings.
pub open spec fn string_views(v: Seq<String>) -> Seq<Seq<char>> {
    v.map_values(|s: String| s@)
}

pub proof fn lemma_bytes_lt_irreflexive(a: Seq<u8>)
    ensures
        !bytes_lt(a, a),
    decreases a.len(),
{
    if a.len() > 0 {
        lemma_bytes_lt_irreflexive(a.drop_first());
    }
}

pub proof fn lemma_bytes_lt_transitive(a: Seq<u8>, b: Seq<u8>, c: Seq<u8>)
    requires
        bytes_lt(a, b),
        bytes_lt(b, c),
    ensures
        bytes_lt(a, c),
    decreases a.len(),
{
    if a.len() > 0 && b.len() > 0 && c.len() > 0 && a[0] == b[0] && b[0] == c[0] {
        lemma_bytes_lt_transitive(a.drop_first(), b.drop_first(), c.drop_first());
    }
}

pub proof fn lemma_bytes_lt_total(a: Seq<u8>, b: Seq<u8>)
    requires
        a != b,
    ensures
        bytes_lt(a, b) || bytes_lt(b, a),
    decreases a.len(),
{
    if a.len() > 0 && b.len() > 0 && a[0] == b[0] {
        if a.drop_first() == b.drop_first() {
            assert(a =~= seq![a[0]] + a.drop_first());
            assert(b =~= seq![b[0]] + b.drop_first());
        }
        lemma_bytes_lt_total(a.drop_first(), b.drop_first());
    } else if a.len() == 0 && b.len() == 0 {
        assert(a =~= b);
    }
}

pub proof fn lemma_key_lt_irreflexive(a: Seq<char>)
    ensures
        !key_lt(a, a),
{
    lemma_bytes_lt_irreflexive(encode_utf8(a));
}

pub proof fn lemma_key_lt_transitive(a: Seq<char>, b: Seq<char>, c: Seq<char>)
    requires
        key_lt(a, b),
        key_lt(b, c),
    ensures
        key_lt(a, c),
{
    lemma_bytes_lt_transitive(encode_utf8(a), encode_utf8(b), encode_utf8(c));
}

/// Two different keys are always ordered one way or the other: distinct
/// strings have distinct UTF-8 encodings.
pub proof fn lemma_key_lt_total(a: Seq<char>, b: Seq<char>)
    requires
        a != b,
    ensures
        key_lt(a, b) || key_lt(b, a),
{
    encode_utf8_decode_utf8(a);
    encode_utf8_decode_utf8(b);
    lemma_bytes_lt_total(encode_utf8(a), encode_utf8(b));
}

/// Two strictly ascending sequences with the same elements are equal: the
/// sorted order of a set of keys is unique.
pub proof fn lemma_ascending_unique(s: Seq<Seq<char>>, t: Seq<Seq<char>>)
    requires
        strictly_ascending(s),
        strictly_ascending(t),
        forall|k: Seq<char>| s.contains(k) <==> t.contains(k),
    ensures
        s == t,
    decreases s.len(),
{
    if s.len() == 0 {
        if t.len() > 0 {
            assert(t.contains(t[0]));
        }
        assert(s =~= t);
    } else {
        assert(s.contains(s[0]));
        let j = choose|j: int| 0 <= j < t.len() && t[j] == s[0];
        assert(t.contains(t[0]));
        let i = choose|i: int| 0 <= i < s.len() && s[i] == t[0];
        if j > 0 {
            assert(key_lt(t[0], t[j]));
            if i > 0 {
                assert(key_lt(s[0], s[i]));
                lemma_key_lt_transitive(s[0], t[0], s[0]);
            }
            lemma_key_lt_irreflexive(s[0]);
        }
        assert(t[0] == s[0]);
        let s1 = s.drop_first();
        let t1 = t.drop_first();
        assert forall|k: Seq<char>| s1.contains(k) <==> t1.contains(k) by {
            if s1.contains(k) {
                let a = choose|a: int| 0 <= a < s1.len() && s1[a] == k;
                assert(key_lt(s[0], s[a + 1]));
                lemma_key_lt_irreflexive(k);
                assert(t.contains(k));
                let b = choose|b: int| 0 <= b < t.len() && t[b] == k;
                assert(b != 0);
                assert(t1[b - 1] == k);
            }
            if t1.contains(k) {
                let a = choose|a: int| 0 <= a < t1.len() && t1[a] == k;
                assert(key_lt(t[0], t[a + 1]));
                lemma_key_lt_irreflexive(k);
                assert(s.contains(k));
                let b = choose|b: int| 0 <= b < s.len() && s[b] == k;
                assert(b != 0);
                assert(s1[b - 1] == k);
            }
        }
        lemma_ascending_unique(s1, t1);
        assert(s =~= seq![s[0]] + s1);
        assert(t =~= seq![t[0]] + t1);
    }
}

/// Whether `a` sorts before `b`, comparing their UTF-8 bytes.
pub fn key_less(a: &str, b: &str) -> (r: bool)
    ensures
        r == key_lt(a@, b@),
{
    let x = a.as_bytes();
    let y = b.as_bytes();
    let mut i: usize = 0;
    assert(x@.skip(0) =~= x@);
    assert(y@.skip(0) =~= y@);
    while i < x.len() && i < y.len()
        invariant
            i <= x@.len(),
            i <= y@.len(),
            x@ == encode_utf8(a@),
            y@ == encode_utf8(b@),
            bytes_lt(x@, y@) == bytes_lt(x@.skip(i as int), y@.skip(i as int)),
        decreases x@.len() - i,
    {
        if x[i] != y[i] {
            return x[i] < y[i];
        }
        assert(x@.skip(i as int).drop_first() =~= x@.skip(i + 1));
        assert(y@.skip(i as int).drop_first() =~= y@.skip(i + 1));
        i = i + 1;
    }
    i == x.len() && i < y.len()
}

/// Sorts keys that are pairwise distinct into ascending order.
pub fn sort_keys(keys: Vec<String>) -> (r: Vec<String>)
    requires
        forall|i: int, j: int|
            0 <= i < j < keys@.len() ==> (#[trigger] keys@[i])@ != (#[trigger] keys@[j])@,
    ensures
        strictly_ascending(string_views(r@)),
        forall|k: Seq<char>|
            string_views(r@).contains(k) <==> string_views(keys@).contains(k),
{
    let mut out: Vec<String> = Vec::new();
    let mut i: usize = 0;
    while i < keys.len()
        invariant
            i <= keys@.len(),
            forall|a: int, b: int|
                0 <= a < b < keys@.len() ==> (#[trigger] keys@[a])@ != (#[trigger] keys@[b])@,
            strictly_ascending(string_views(out@)),
            forall|k: Seq<char>|
                string_views(out@).contains(k) <==> string_views(keys@.subrange(0, i as int)).contains(k),
        decreases keys@.len() - i,
    {
        let k = keys[i].clone();
        let ghost old_out = string_views(out@);
        let ghost kv = k@;
        assert(!old_out.contains(kv)) by {
            if old_out.contains(kv) {
                let w = choose|w: int| 0 <= w < i && string_views(keys@.subrange(0, i as int))[w] == kv;
                assert(keys@[w]@ == kv);
            }
        }
        let mut p: usize = 0;
        while p < out.len()
            invariant
                p <= out@.len(),
                string_views(out@) == old_out,
                forall|q: int| 0 <= q < p ==> key_lt(#[trigger] old_out[q], kv),
                !old_out.contains(kv),
                k@ == kv,
            ensures
                p <= out@.len(),
                forall|q: int| 0 <= q < p ==> key_lt(#[trigger] old_out[q], kv),
                p < out@.len() ==> key_lt(kv, old_out[p as int]),
            decreases out@.len() - p,
        {
            if key_less(k.as_str(), out[p].as_str()) {
                break;
            }
            proof {
                assert(old_out[p as int] == out@[p as int]@);
                assert(old_out.contains(old_out[p as int]));
                lemma_key_lt_total(kv, old_out[p as int]);
            }
            p = p + 1;
        }
        out.insert(p, k);
        let ghost new_out = string_views(out@);
        assert(new_out =~= old_out.insert(p as int, kv));
        assert forall|a: int, b: int| 0 <= a < b < new_out.len() implies key_lt(
            #[trigger] new_out[a],
            #[trigger] new_out[b],
        ) by {
            if a <= p && b - 1 > p {
                lemma_key_lt_transitive(kv, old_out[p as int], old_out[b - 1]);
            }
            if a < p && b > p {
                lemma_key_lt_transitive(new_out[a], kv, new_out[b]);
            }
        }
        let ghost prev = string_views(keys@.subrange(0, i as int));
        assert(string_views(keys@.subrange(0, i + 1)) =~= prev.push(kv));
        assert forall|key: Seq<char>| new_out.contains(key) implies prev.push(kv).contains(key) by {
            let w = choose|w: int| 0 <= w < new_out.len() && new_out[w] == key;
            if w == p {
                assert(prev.push(kv)[prev.len() as int] == key);
            } else {
                let z = if w < p { w } else { w - 1 };
                assert(old_out[z] == key);
                assert(old_out.contains(key));
                assert(prev.contains(key));
                let y = choose|y: int| 0 <= y < prev.len() && prev[y] == key;
                assert(prev.push(kv)[y] == key);
            }
        }
        assert forall|key: Seq<char>| prev.push(kv).contains(key) implies new_out.contains(key) by {
            let w = choose|w: int| 0 <= w < prev.len() + 1 && prev.push(kv)[w] == key;
            if w < prev.len() {
                assert(prev[w] == key);
                assert(prev.contains(key));
                assert(old_out.contains(key));
                let z = choose|z: int| 0 <= z < old_out.len() && old_out[z] == key;
                if z < p {
                    assert(new_out[z] == key);
                } else {
                    assert(new_out[z + 1] == key);
                }
            } else {
                assert(new_out[p as int] == key);
            }
        }
        i = i + 1;
    }
    assert(keys@.subrange(0, keys@.len() as int) =~= keys@);
    out
}

} // verus!
