//! Request signatures: the MD5 digest, in lowercase hexadecimal, of every
//! parameter key followed by its value in ascending key order, then the secret.

use vstd::prelude::*;
use vstd::string::StringExecFns;
use vstd::set_lib::lemma_set_empty_equivalency_len;
use vstd::utf8::{encode_utf8, encode_utf8_decode_utf8};
use crate::keyorder::{
    key_lt, lemma_ascending_unique, lemma_key_lt_irreflexive, lemma_key_lt_total,
    lemma_key_lt_transitive, string_views, strictly_ascending,
};
use crate::params::ParamMap;
use crate::text::{hex_digits, lower_hex, to_lower_hex};

verus! {

/// The MD5 digest of `data`.
pub uninterp spec fn md5_of(data: Seq<u8>) -> Seq<u8>;

/// Relies on `md5::compute`: the sixteen bytes of the MD5 digest of `data`.
#[verifier::external_body]
fn md5_digest(data: &[u8]) -> (r: [u8; 16])
    ensures
        r@ == md5_of(data@),
{
    md5::compute(data).0
}

/// `s` lists exactly the keys of `m`, in ascending order.
pub open spec fn lists_keys_in_order(s: Seq<Seq<char>>, m: Map<Seq<char>, Seq<char>>) -> bool {
    &&& strictly_ascending(s)
    &&& forall|k: Seq<char>| s.contains(k) <==> m.contains_key(k)
}

/// The keys of `m` in ascending order.
pub open spec fn sorted_keys_of(m: Map<Seq<char>, Seq<char>>) -> Seq<Seq<char>> {
    choose|s: Seq<Seq<char>>| lists_keys_in_order(s, m)
}

/// Each of `keys` immediately followed by its value in `m`, with no separators.
pub open spec fn concat_entries(keys: Seq<Seq<char>>, m: Map<Seq<char>, Seq<char>>) -> Seq<char>
    decreases keys.len(),
{
    if keys.len() == 0 {
        Seq::empty()
    } else {
        concat_entries(keys.drop_last(), m) + keys.last() + m[keys.last()]
    }
}

/// The parameters that are signed: the request's own, with `method` set.
pub open spec fn signed_params(params: Map<Seq<char>, Seq<char>>, method: Seq<char>) -> Map<
    Seq<char>,
    Seq<char>,
> {
    params.insert("method"@, method)
}

/// The text that is digested: all signed parameters in key order, then the secret.
pub open spec fn signature_base(
    params: Map<Seq<char>, Seq<char>>,
    method: Seq<char>,
    secret: Seq<char>,
) -> Seq<char> {
    let m = signed_params(params, method);
    concat_entries(sorted_keys_of(m), m) + secret
}

/// The signature: the MD5 digest of the UTF-8 bytes of the signature base,
/// as 32 lowercase hexadecimal digits.
pub open spec fn signature_of(
    params: Map<Seq<char>, Seq<char>>,
    method: Seq<char>,
    secret: Seq<char>,
) -> Seq<char> {
    lower_hex(md5_of(encode_utf8(signature_base(params, method, secret))))
}

/// Signing is deterministic: equal parameters, method name and secret give
/// the same signature.
pub proof fn lemma_signature_deterministic(
    p: Map<Seq<char>, Seq<char>>,
    q: Map<Seq<char>, Seq<char>>,
    method: Seq<char>,
    secret: Seq<char>,
)
    requires
        p == q,
    ensures
        signature_of(p, method, secret) == signature_of(q, method, secret),
{
}

/// The map built by inserting `entries` into `m`, first to last.
pub open spec fn insert_all(
    m: Map<Seq<char>, Seq<char>>,
    entries: Seq<(Seq<char>, Seq<char>)>,
) -> Map<Seq<char>, Seq<char>>
    decreases entries.len(),
{
    if entries.len() == 0 {
        m
    } else {
        insert_all(m, entries.drop_last()).insert(entries.last().0, entries.last().1)
    }
}

/// No key occurs twice among `entries`.
pub open spec fn entry_keys_distinct(entries: Seq<(Seq<char>, Seq<char>)>) -> bool {
    forall|i: int, j: int|
        0 <= i < j < entries.len() ==> (#[trigger] entries[i]).0 != (#[trigger] entries[j]).0
}

proof fn lemma_insert_all_contents(entries: Seq<(Seq<char>, Seq<char>)>)
    requires
        entry_keys_distinct(entries),
    ensures
        forall|k: Seq<char>|
            #![trigger insert_all(Map::empty(), entries).contains_key(k)]
            insert_all(Map::empty(), entries).contains_key(k) <==> exists|i: int|
                0 <= i < entries.len() && (#[trigger] entries[i]).0 == k,
        forall|i: int|
            0 <= i < entries.len() ==> insert_all(Map::empty(), entries)[(#[trigger] entries[i]).0]
                == entries[i].1,
    decreases entries.len(),
{
    if entries.len() > 0 {
        let rest = entries.drop_last();
        assert(entry_keys_distinct(rest)) by {
            assert forall|i: int, j: int| 0 <= i < j < rest.len() implies (#[trigger] rest[i]).0
                != (#[trigger] rest[j]).0 by {
                assert(entries[i].0 != entries[j].0);
            }
        }
        lemma_insert_all_contents(rest);
        let n = entries.len() - 1;
        assert forall|k: Seq<char>|
            #![trigger insert_all(Map::empty(), entries).contains_key(k)]
            insert_all(Map::empty(), entries).contains_key(k) <==> exists|i: int|
                0 <= i < entries.len() && (#[trigger] entries[i]).0 == k by {
            if insert_all(Map::empty(), rest).contains_key(k) {
                let i = choose|i: int| 0 <= i < rest.len() && (#[trigger] rest[i]).0 == k;
                assert(entries[i].0 == k);
            }
            if k == entries[n].0 {
                assert(entries[n].0 == k);
            }
            if exists|i: int| 0 <= i < entries.len() && (#[trigger] entries[i]).0 == k {
                let i = choose|i: int| 0 <= i < entries.len() && (#[trigger] entries[i]).0 == k;
                if i < n {
                    assert(rest[i].0 == k);
                }
            }
        }
        assert forall|i: int| 0 <= i < entries.len() implies insert_all(Map::empty(), entries)[(
        #[trigger] entries[i]).0] == entries[i].1 by {
            if i < n {
                assert(entries[i].0 != entries[n].0);
                assert(rest[i] == entries[i]);
            }
        }
    }
}

/// Inserting the same entries, with distinct keys, in any order yields the
/// same parameters and hence the same signature: keys are sorted before they
/// are concatenated.
pub proof fn lemma_signature_independent_of_insertion_order(
    a: Seq<(Seq<char>, Seq<char>)>,
    b: Seq<(Seq<char>, Seq<char>)>,
    method: Seq<char>,
    secret: Seq<char>,
)
    requires
        entry_keys_distinct(a),
        entry_keys_distinct(b),
        forall|e: (Seq<char>, Seq<char>)| a.contains(e) <==> b.contains(e),
    ensures
        insert_all(Map::empty(), a) == insert_all(Map::empty(), b),
        signature_of(insert_all(Map::empty(), a), method, secret) == signature_of(
            insert_all(Map::empty(), b),
            method,
            secret,
        ),
{
    lemma_insert_all_contents(a);
    lemma_insert_all_contents(b);
    let ma = insert_all(Map::empty(), a);
    let mb = insert_all(Map::empty(), b);
    assert forall|k: Seq<char>| ma.contains_key(k) <==> mb.contains_key(k) by {
        if ma.contains_key(k) {
            let i = choose|i: int| 0 <= i < a.len() && (#[trigger] a[i]).0 == k;
            assert(a.contains(a[i]));
            let j = choose|j: int| 0 <= j < b.len() && b[j] == a[i];
            assert(b[j].0 == k);
        }
        if mb.contains_key(k) {
            let i = choose|i: int| 0 <= i < b.len() && (#[trigger] b[i]).0 == k;
            assert(b.contains(b[i]));
            let j = choose|j: int| 0 <= j < a.len() && a[j] == b[i];
            assert(a[j].0 == k);
        }
    }
    assert forall|k: Seq<char>| #[trigger] ma.contains_key(k) implies ma[k] == mb[k] by {
        let i = choose|i: int| 0 <= i < a.len() && (#[trigger] a[i]).0 == k;
        assert(a.contains(a[i]));
        let j = choose|j: int| 0 <= j < b.len() && b[j] == a[i];
        assert(ma[a[i].0] == a[i].1);
        assert(mb[b[j].0] == b[j].1);
    }
    assert(ma =~= mb);
}

/// `x` placed into the ascending sequence `r` where its order puts it.
pub open spec fn insert_in_order(r: Seq<Seq<char>>, x: Seq<char>) -> Seq<Seq<char>>
    decreases r.len(),
{
    if r.len() == 0 {
        seq![x]
    } else if key_lt(r.last(), x) {
        r.push(x)
    } else {
        insert_in_order(r.drop_last(), x).push(r.last())
    }
}

proof fn lemma_insert_in_order(r: Seq<Seq<char>>, x: Seq<char>)
    requires
        strictly_ascending(r),
        !r.contains(x),
    ensures
        strictly_ascending(insert_in_order(r, x)),
        forall|k: Seq<char>|
            #![trigger insert_in_order(r, x).contains(k)]
            insert_in_order(r, x).contains(k) <==> (r.contains(k) || k == x),
    decreases r.len(),
{
    let t = insert_in_order(r, x);
    if r.len() == 0 {
        assert(t =~= seq![x]);
        assert forall|k: Seq<char>| t.contains(k) <==> (r.contains(k) || k == x) by {
            if k == x {
                assert(t[0] == k);
            }
        }
    } else if key_lt(r.last(), x) {
        assert forall|a: int, b: int| 0 <= a < b < t.len() implies key_lt(
            #[trigger] t[a],
            #[trigger] t[b],
        ) by {
            if b == r.len() {
                if a < r.len() - 1 {
                    lemma_key_lt_transitive(r[a], r.last(), x);
                }
            }
        }
        assert forall|k: Seq<char>| t.contains(k) <==> (r.contains(k) || k == x) by {
            if t.contains(k) {
                let i = choose|i: int| 0 <= i < t.len() && t[i] == k;
                if i < r.len() {
                    assert(r[i] == k);
                }
            }
            if r.contains(k) {
                let i = choose|i: int| 0 <= i < r.len() && r[i] == k;
                assert(t[i] == k);
            }
            if k == x {
                assert(t[r.len() as int] == k);
            }
        }
    } else {
        let r1 = r.drop_last();
        let l = r.last();
        assert(r.contains(l));
        assert(l != x);
        lemma_key_lt_total(l, x);
        assert(!r1.contains(x)) by {
            if r1.contains(x) {
                let i = choose|i: int| 0 <= i < r1.len() && r1[i] == x;
                assert(r[i] == x);
            }
        }
        assert(strictly_ascending(r1)) by {
            assert forall|a: int, b: int| 0 <= a < b < r1.len() implies key_lt(
                #[trigger] r1[a],
                #[trigger] r1[b],
            ) by {
                assert(key_lt(r[a], r[b]));
            }
        }
        lemma_insert_in_order(r1, x);
        let t1 = insert_in_order(r1, x);
        assert(t == t1.push(l));
        assert forall|a: int, b: int| 0 <= a < b < t.len() implies key_lt(
            #[trigger] t[a],
            #[trigger] t[b],
        ) by {
            if b == t1.len() {
                assert(t1.contains(t1[a]));
                assert(r1.contains(t1[a]) || t1[a] == x);
                if t1[a] != x {
                    let i = choose|i: int| 0 <= i < r1.len() && r1[i] == t1[a];
                    assert(key_lt(r[i], r[r.len() - 1]));
                }
            } else {
                assert(key_lt(t1[a], t1[b]));
            }
        }
        assert forall|k: Seq<char>| t.contains(k) <==> (r.contains(k) || k == x) by {
            if t.contains(k) {
                let i = choose|i: int| 0 <= i < t.len() && t[i] == k;
                if i < t1.len() {
                    assert(t1.contains(k));
                    if k != x {
                        let w = choose|w: int| 0 <= w < r1.len() && r1[w] == k;
                        assert(r[w] == k);
                    }
                } else {
                    assert(r[r.len() - 1] == k);
                }
            }
            if r.contains(k) {
                let i = choose|i: int| 0 <= i < r.len() && r[i] == k;
                if i < r1.len() {
                    assert(r1[i] == k);
                    assert(t1.contains(k));
                    let w = choose|w: int| 0 <= w < t1.len() && t1[w] == k;
                    assert(t[w] == k);
                } else {
                    assert(t[t1.len() as int] == k);
                }
            }
            if k == x {
                assert(t1.contains(k));
                let w = choose|w: int| 0 <= w < t1.len() && t1[w] == k;
                assert(t[w] == k);
            }
        }
    }
}

/// Every finite set of keys can be listed in ascending order.
pub proof fn lemma_sorted_listing_exists(d: Set<Seq<char>>) -> (s: Seq<Seq<char>>)
    requires
        d.finite(),
    ensures
        strictly_ascending(s),
        forall|k: Seq<char>| s.contains(k) <==> d.contains(k),
    decreases d.len(),
{
    lemma_set_empty_equivalency_len(d);
    if d.len() == 0 {
        let s = Seq::<Seq<char>>::empty();
        assert forall|k: Seq<char>| s.contains(k) <==> d.contains(k) by {
            assert(!Set::<Seq<char>>::empty().contains(k));
        }
        s
    } else {
        let x = d.choose();
        let r = lemma_sorted_listing_exists(d.remove(x));
        lemma_insert_in_order(r, x);
        insert_in_order(r, x)
    }
}

proof fn lemma_concat_entries_append(
    a: Seq<Seq<char>>,
    b: Seq<Seq<char>>,
    m: Map<Seq<char>, Seq<char>>,
)
    ensures
        concat_entries(a + b, m) == concat_entries(a, m) + concat_entries(b, m),
    decreases b.len(),
{
    if b.len() == 0 {
        assert(a + b =~= a);
        assert(concat_entries(a, m) + Seq::<char>::empty() =~= concat_entries(a, m));
    } else {
        assert((a + b).drop_last() =~= a + b.drop_last());
        lemma_concat_entries_append(a, b.drop_last(), m);
        assert(concat_entries(a + b, m) =~= concat_entries(a, m) + concat_entries(b, m));
    }
}

proof fn lemma_concat_entries_agree(
    s: Seq<Seq<char>>,
    m1: Map<Seq<char>, Seq<char>>,
    m2: Map<Seq<char>, Seq<char>>,
)
    requires
        forall|i: int| 0 <= i < s.len() ==> m1[#[trigger] s[i]] == m2[s[i]],
    ensures
        concat_entries(s, m1) == concat_entries(s, m2),
    decreases s.len(),
{
    if s.len() > 0 {
        let s1 = s.drop_last();
        assert forall|i: int| 0 <= i < s1.len() implies m1[#[trigger] s1[i]] == m2[s1[i]] by {
            assert(s1[i] == s[i]);
        }
        lemma_concat_entries_agree(s1, m1, m2);
        assert(m1[s[s.len() - 1]] == m2[s[s.len() - 1]]);
    }
}

/// Changing the value of one parameter (other than `method`, which the
/// operation sets) changes the bytes that are digested. That the digest
/// then changes too is MD5's property, not proved here.
pub proof fn lemma_value_change_changes_signed_bytes(
    p: Map<Seq<char>, Seq<char>>,
    k: Seq<char>,
    v1: Seq<char>,
    v2: Seq<char>,
    method: Seq<char>,
    secret: Seq<char>,
)
    requires
        p.dom().finite(),
        k != "method"@,
        v1 != v2,
    ensures
        encode_utf8(signature_base(p.insert(k, v1), method, secret)) != encode_utf8(
            signature_base(p.insert(k, v2), method, secret),
        ),
{
    let m1 = signed_params(p.insert(k, v1), method);
    let m2 = signed_params(p.insert(k, v2), method);
    assert(m1.dom() =~= p.dom().insert(k).insert("method"@));
    assert(m2.dom() =~= m1.dom());
    let w = lemma_sorted_listing_exists(m1.dom());
    assert(lists_keys_in_order(w, m1));
    assert(lists_keys_in_order(w, m2));
    lemma_ascending_unique(sorted_keys_of(m1), w);
    lemma_ascending_unique(sorted_keys_of(m2), w);
    assert(m1.contains_key(k));
    let j = choose|j: int| 0 <= j < w.len() && w[j] == k;
    let pre = w.take(j);
    let post = w.skip(j + 1);
    assert(w =~= pre + seq![k] + post);
    assert forall|i: int| 0 <= i < pre.len() implies m1[#[trigger] pre[i]] == m2[pre[i]] by {
        assert(key_lt(w[i], w[j]));
        lemma_key_lt_irreflexive(k);
    }
    assert forall|i: int| 0 <= i < post.len() implies m1[#[trigger] post[i]] == m2[post[i]] by {
        assert(key_lt(w[j], w[j + 1 + i]));
        lemma_key_lt_irreflexive(k);
    }
    lemma_concat_entries_agree(pre, m1, m2);
    lemma_concat_entries_agree(post, m1, m2);
    lemma_concat_entries_append(pre + seq![k], post, m1);
    lemma_concat_entries_append(pre + seq![k], post, m2);
    assert((pre + seq![k]).drop_last() =~= pre);
    let a = concat_entries(pre, m1);
    let b = concat_entries(post, m1);
    assert(m1[k] == v1);
    assert(m2[k] == v2);
    let x1 = a + k + v1 + b + secret;
    let x2 = a + k + v2 + b + secret;
    assert(signature_base(p.insert(k, v1), method, secret) =~= x1);
    assert(signature_base(p.insert(k, v2), method, secret) =~= x2);
    if v1.len() == v2.len() {
        assert(exists|i: int| 0 <= i < v1.len() && v1[i] != v2[i]) by {
            if forall|i: int| 0 <= i < v1.len() ==> v1[i] == v2[i] {
                assert(v1 =~= v2);
            }
        }
        let i = choose|i: int| 0 <= i < v1.len() && v1[i] != v2[i];
        assert(x1[a.len() + k.len() + i] == v1[i]);
        assert(x2[a.len() + k.len() + i] == v2[i]);
    } else {
        assert(x1.len() != x2.len());
    }
    encode_utf8_decode_utf8(x1);
    encode_utf8_decode_utf8(x2);
}

/// The text that is digested for `params` and the remote method `method`:
/// every key followed by its value, keys in ascending order, then `secret`.
pub fn signature_base_text(params: &ParamMap, method: &str, secret: &str) -> (r: String)
    ensures
        r@ == signature_base(params@, method@, secret@),
{
    let mut all = params.duplicate();
    all.insert("method".to_owned(), method.to_owned());
    let ghost m = all@;
    let keys = all.sorted_keys();
    let ghost ks = string_views(keys@);
    proof {
        assert(lists_keys_in_order(ks, m));
        lemma_ascending_unique(ks, sorted_keys_of(m));
    }
    let mut base = String::new();
    let mut i: usize = 0;
    while i < keys.len()
        invariant
            i <= keys@.len(),
            ks == string_views(keys@),
            m == all@,
            lists_keys_in_order(ks, m),
            base@ == concat_entries(ks.subrange(0, i as int), m),
        decreases keys@.len() - i,
    {
        let k = keys[i].as_str();
        assert(ks.contains(ks[i as int]));
        let v = all.get(k).unwrap();
        base.append(k);
        base.append(v.as_str());
        assert(ks.subrange(0, i + 1).drop_last() =~= ks.subrange(0, i as int));
        i = i + 1;
    }
    assert(ks.subrange(0, ks.len() as int) =~= ks);
    base.append(secret);
    base
}

/// Computes the signature of `params` for the remote method `method`.
pub fn sign(params: &ParamMap, method: &str, secret: &str) -> (r: String)
    ensures
        r@ == signature_of(params@, method@, secret@),
        r@.len() == 32,
        forall|i: int| 0 <= i < r@.len() ==> hex_digits().contains(#[trigger] r@[i]),
{
    let base = signature_base_text(params, method, secret);
    let digest = md5_digest(base.as_str().as_bytes());
    let r = to_lower_hex(digest.as_slice());
    proof {
        lemma_lower_hex_len(digest@);
        lemma_lower_hex_digits(digest@);
    }
    r
}

/// Every character of a hexadecimal rendering is a lowercase hexadecimal digit.
pub proof fn lemma_lower_hex_digits(bytes: Seq<u8>)
    ensures
        forall|i: int|
            0 <= i < lower_hex(bytes).len() ==> hex_digits().contains(#[trigger] lower_hex(bytes)[i]),
    decreases bytes.len(),
{
    if bytes.len() > 0 {
        let b = bytes.last();
        lemma_lower_hex_digits(bytes.drop_last());
        lemma_lower_hex_len(bytes.drop_last());
        let h = lower_hex(bytes);
        let n: int = lower_hex(bytes.drop_last()).len() as int;
        assert(hex_digits()[(b / 16) as int] == h[n]);
        assert(hex_digits()[(b % 16) as int] == h[n + 1]);
        assert forall|i: int| 0 <= i < h.len() implies hex_digits().contains(#[trigger] h[i]) by {
            if i < n {
                assert(h[i] == lower_hex(bytes.drop_last())[i]);
            } else if i == n {
                assert(hex_digits()[(b / 16) as int] == h[i]);
            } else {
                assert(hex_digits()[(b % 16) as int] == h[i]);
            }
        }
    }
}

/// Two digits for every byte.
pub proof fn lemma_lower_hex_len(bytes: Seq<u8>)
    ensures
        lower_hex(bytes).len() == 2 * bytes.len(),
    decreases bytes.len(),
{
    if bytes.len() > 0 {
        lemma_lower_hex_len(bytes.drop_last());
    }
}

} // verus!
