//! Request signing for video uploads (AWS Signature Version 4 as the upload
//! service expects it): canonical request, string to sign, derived signing
//! key (with a cache), and the `Authorization` header.

use vstd::prelude::*;
use crate::chars::{chars_of, string_of, push_str, push_chars, chars_eq, has_prefix, occurs_at, matches_at};
use crate::crypto::{sha256, hmac_sha256, hex_encode, url_encode, url_encoded, url_path_host,
    spec_url_path_host, spec_sha256, spec_hmac_sha256, utc_now_amz_date, to_lowercase, spec_to_lowercase};
use crate::json::{key_lt, lemma_key_trichotomy, lemma_key_transitive};
use crate::numfmt::{hex_lower, push_hex};
use vstd::utf8::encode_utf8;

verus! {

// ---------------------------------------------------------------------------
// Key/value lists (header, query and credential maps)
// ---------------------------------------------------------------------------

/// The model of a list of string pairs.
pub open spec fn pairs_view(p: Seq<(String, String)>) -> Seq<(Seq<char>, Seq<char>)> {
    p.map_values(|x: (String, String)| (x.0@, x.1@))
}

/// Whether no two pairs share a key.
pub open spec fn keys_distinct(p: Seq<(Seq<char>, Seq<char>)>) -> bool {
    forall|i: int, j: int| 0 <= i < j < p.len() ==> #[trigger] p[i].0 != #[trigger] p[j].0
}

/// Adding the pair `(k, v)` when `value` is `Some(v)`, to pairs with
/// distinct keys all among `ks`, where `k` is not among `ks`: the keys stay
/// distinct and are among `ks` followed by `k`.
pub proof fn lemma_push_fresh_key(p: Seq<(Seq<char>, Seq<char>)>, k: Seq<char>, value: Option<Seq<char>>, ks: Seq<Seq<char>>)
    requires
        keys_distinct(p),
        forall|i: int| 0 <= i < p.len() ==> ks.contains(#[trigger] p[i].0),
        !ks.contains(k),
    ensures
        ({
            let q = match value { Some(v) => p.push((k, v)), None => p };
            &&& keys_distinct(q)
            &&& forall|i: int| 0 <= i < q.len() ==> ks.push(k).contains(#[trigger] q[i].0)
        }),
{
    let q = match value { Some(v) => p.push((k, v)), None => p };
    assert forall|i: int| 0 <= i < q.len() implies ks.push(k).contains(#[trigger] q[i].0) by {
        if i < p.len() {
            assert(q[i] == p[i]);
            let m = choose|m: int| 0 <= m < ks.len() && ks[m] == p[i].0;
            assert(ks.push(k)[m] == ks[m]);
        } else {
            assert(ks.push(k)[ks.len() as int] == k);
        }
    }
    assert forall|i: int, j: int| 0 <= i < j < q.len() implies #[trigger] q[i].0 != #[trigger] q[j].0 by {
        if j < p.len() {
            assert(q[i] == p[i] && q[j] == p[j]);
        } else {
            assert(q[i] == p[i]);
            assert(ks.contains(p[i].0));
        }
    }
}

/// The value of the first pair whose key is `k`.
pub open spec fn pairs_lookup(p: Seq<(Seq<char>, Seq<char>)>, k: Seq<char>) -> Option<Seq<char>>
    decreases p.len(),
{
    if p.len() == 0 {
        None
    } else if p[0].0 == k {
        Some(p[0].1)
    } else {
        pairs_lookup(p.subrange(1, p.len() as int), k)
    }
}

/// Index of the first pair whose key is `k`, or the length when none is.
pub open spec fn pairs_index(p: Seq<(Seq<char>, Seq<char>)>, k: Seq<char>) -> nat
    decreases p.len(),
{
    if p.len() == 0 {
        0
    } else if p[0].0 == k {
        0
    } else {
        1 + pairs_index(p.subrange(1, p.len() as int), k)
    }
}

/// The list after setting `k` to `v`: the first pair with key `k` gets the
/// new value, or the pair is appended when the key is new (map insertion).
pub open spec fn pairs_set(p: Seq<(Seq<char>, Seq<char>)>, k: Seq<char>, v: Seq<char>) -> Seq<(Seq<char>, Seq<char>)> {
    let i = pairs_index(p, k) as int;
    if i < p.len() {
        p.update(i, (k, v))
    } else {
        p.push((k, v))
    }
}

/// A value set under a key is what a later look-up of that key gives.
pub proof fn law_pair_set_then_lookup(p: Seq<(Seq<char>, Seq<char>)>, k: Seq<char>, v: Seq<char>)
    ensures
        pairs_lookup(pairs_set(p, k, v), k) == Some(v),
    decreases p.len(),
{
    let q = pairs_set(p, k, v);
    if p.len() == 0 {
        assert(q[0] == (k, v));
    } else if p[0].0 == k {
        assert(q[0] == (k, v));
    } else {
        let r = p.subrange(1, p.len() as int);
        law_pair_set_then_lookup(r, k, v);
        lemma_pairs_index(r, k);
        assert(q.subrange(1, q.len() as int) =~= pairs_set(r, k, v));
        assert(q[0] == p[0]);
    }
}

/// Setting a key keeps the keys distinct: an existing key is overwritten in
/// place, and a new key is added at the end.
pub proof fn law_pair_set_keeps_keys_distinct(p: Seq<(Seq<char>, Seq<char>)>, k: Seq<char>, v: Seq<char>)
    requires
        keys_distinct(p),
    ensures
        keys_distinct(pairs_set(p, k, v)),
{
    lemma_pairs_index(p, k);
    let q = pairs_set(p, k, v);
    let x = pairs_index(p, k) as int;
    assert forall|i: int, j: int| 0 <= i < j < q.len() implies #[trigger] q[i].0 != #[trigger] q[j].0 by {
        if x < p.len() {
            assert(q[i].0 == p[i].0 && q[j].0 == p[j].0);
        } else {
            assert(q[i] == p[i]);
            if j < p.len() {
                assert(q[j] == p[j]);
            }
        }
    }
}

proof fn lemma_pairs_index(p: Seq<(Seq<char>, Seq<char>)>, k: Seq<char>)
    ensures
        pairs_index(p, k) <= p.len(),
        pairs_index(p, k) < p.len() ==> p[pairs_index(p, k) as int].0 == k && pairs_lookup(p, k) == Some(p[pairs_index(p, k) as int].1),
        pairs_index(p, k) == p.len() ==> pairs_lookup(p, k) is None,
        forall|j: int| 0 <= j < pairs_index(p, k) ==> p[j].0 != k,
    decreases p.len(),
{
    if p.len() > 0 && p[0].0 != k {
        let r = p.subrange(1, p.len() as int);
        lemma_pairs_index(r, k);
        assert forall|j: int| 0 <= j < pairs_index(p, k) implies p[j].0 != k by {
            if j > 0 {
                assert(p[j] == r[j - 1]);
            }
        }
    }
}

/// Index of the first pair with key `k`.
pub fn find_pair(p: &Vec<(String, String)>, k: &str) -> (r: usize)
    ensures
        r == pairs_index(pairs_view(p@), k@),
{
    let ghost pv = pairs_view(p@);
    let kc = chars_of(k);
    assert(pv.subrange(0, pv.len() as int) == pv);
    let mut i: usize = 0;
    while i < p.len()
        invariant
            i <= p.len(),
            pv == pairs_view(p@),
            pv.len() == p@.len(),
            kc@ == k@,
            pairs_index(pv, k@) == i + pairs_index(pv.subrange(i as int, pv.len() as int), k@),
        decreases p.len() - i,
    {
        let pc = chars_of(p[i].0.as_str());
        proof {
            let t = pv.subrange(i as int, pv.len() as int);
            assert(t[0] == pv[i as int]);
            assert(t.subrange(1, t.len() as int) == pv.subrange(i + 1, pv.len() as int));
        }
        if chars_eq(pc.as_slice(), kc.as_slice()) {
            return i;
        }
        i = i + 1;
    }
    i
}

/// The value of the first pair with key `k`.
pub fn get_pair<'a>(p: &'a Vec<(String, String)>, k: &str) -> (r: Option<&'a String>)
    ensures
        r is Some <==> pairs_lookup(pairs_view(p@), k@) is Some,
        r matches Some(v) ==> pairs_lookup(pairs_view(p@), k@) == Some(v@),
{
    let i = find_pair(p, k);
    proof { lemma_pairs_index(pairs_view(p@), k@); }
    if i < p.len() {
        Some(&p[i].1)
    } else {
        None
    }
}

/// Sets `k` to `v` in the list.
pub fn set_pair(p: &mut Vec<(String, String)>, k: String, v: String)
    ensures
        pairs_view(final(p)@) == pairs_set(pairs_view(old(p)@), k@, v@),
        keys_distinct(pairs_view(old(p)@)) ==> keys_distinct(pairs_view(final(p)@)),
{
    proof {
        if keys_distinct(pairs_view(p@)) {
            law_pair_set_keeps_keys_distinct(pairs_view(p@), k@, v@);
        }
    }
    let i = find_pair(p, k.as_str());
    let ghost kv = k@;
    let ghost vv = v@;
    proof { lemma_pairs_index(pairs_view(p@), k@); }
    if i < p.len() {
        p.set(i, (k, v));
        assert(pairs_view(p@) =~= pairs_set(pairs_view(old(p)@), kv, vv));
    } else {
        p.push((k, v));
        assert(pairs_view(p@) =~= pairs_set(pairs_view(old(p)@), kv, vv));
    }
}

// ---------------------------------------------------------------------------
// Scope and canonical path
// ---------------------------------------------------------------------------

/// The credential scope `date/region/service/aws4_request`.
pub open spec fn scope_text(short_date: Seq<char>, region: Seq<char>, service: Seq<char>) -> Seq<char> {
    short_date + seq!['/'] + region + seq!['/'] + service + "/aws4_request"@
}

/// `s` without its leading slashes.
pub open spec fn strip_leading_slashes(s: Seq<char>) -> Seq<char>
    decreases s.len(),
{
    if s.len() > 0 && s[0] == '/' {
        strip_leading_slashes(s.subrange(1, s.len() as int))
    } else {
        s
    }
}

/// `s` with every `%2F`, scanning left to right, replaced by `/`.
pub open spec fn unescape_slashes(s: Seq<char>) -> Seq<char>
    decreases s.len(),
{
    if s.len() >= 3 && s[0] == '%' && s[1] == '2' && s[2] == 'F' {
        seq!['/'] + unescape_slashes(s.subrange(3, s.len() as int))
    } else if s.len() > 0 {
        seq![s[0]] + unescape_slashes(s.subrange(1, s.len() as int))
    } else {
        Seq::empty()
    }
}

/// The canonical path: `/` for an empty or root path, otherwise `/` followed
/// by the URL encoding of the path without leading slashes, with encoded
/// slashes turned back into `/`.
pub open spec fn canonical_path(path: Seq<char>) -> Seq<char> {
    if path.len() == 0 || path == seq!['/'] {
        seq!['/']
    } else {
        let rest = strip_leading_slashes(path);
        if rest.len() == 0 {
            seq!['/']
        } else {
            seq!['/'] + unescape_slashes(url_encoded(encode_utf8(rest)))
        }
    }
}


/// The credential scope for a date, region and service.
pub fn create_scope(short_date: &str, region: &str, service: &str) -> (r: String)
    ensures
        r@ == scope_text(short_date@, region@, service@),
{
    let mut out: Vec<char> = Vec::new();
    push_str(&mut out, short_date);
    out.push('/');
    push_str(&mut out, region);
    out.push('/');
    push_str(&mut out, service);
    push_str(&mut out, "/aws4_request");
    assert(out@ =~= scope_text(short_date@, region@, service@));
    string_of(out.as_slice())
}

fn unescape_slashes_exec(s: &[char]) -> (r: Vec<char>)
    ensures
        r@ == unescape_slashes(s@),
{
    let mut out: Vec<char> = Vec::new();
    let mut i: usize = 0;
    assert(s@.subrange(0, s@.len() as int) == s@);
    while i < s.len()
        invariant
            i <= s.len(),
            out@ + unescape_slashes(s@.subrange(i as int, s@.len() as int)) == unescape_slashes(s@),
        decreases s.len() - i,
    {
        let ghost t = s@.subrange(i as int, s@.len() as int);
        if s.len() - i >= 3 && s[i] == '%' && s[i + 1] == '2' && s[i + 2] == 'F' {
            proof {
                assert(t[0] == '%' && t[1] == '2' && t[2] == 'F');
                assert(t.subrange(3, t.len() as int) == s@.subrange(i + 3, s@.len() as int));
                assert(out@.push('/') + unescape_slashes(s@.subrange(i + 3, s@.len() as int)) == out@ + (seq!['/'] + unescape_slashes(s@.subrange(i + 3, s@.len() as int))));
            }
            out.push('/');
            i = i + 3;
        } else {
            proof {
                assert(t[0] == s@[i as int]);
                if t.len() >= 3 {
                    assert(t[1] == s@[i + 1] && t[2] == s@[i + 2]);
                }
                assert(t.subrange(1, t.len() as int) == s@.subrange(i + 1, s@.len() as int));
                assert(out@.push(s@[i as int]) + unescape_slashes(s@.subrange(i + 1, s@.len() as int)) == out@ + (seq![s@[i as int]] + unescape_slashes(s@.subrange(i + 1, s@.len() as int))));
            }
            out.push(s[i]);
            i = i + 1;
        }
    }
    assert(s@.subrange(i as int, s@.len() as int) == Seq::<char>::empty());
    assert(out@ + Seq::<char>::empty() == out@);
    out
}

/// The canonical form of a request path.
pub fn create_canonicalized_path(path: &str) -> (r: String)
    ensures
        r@ == canonical_path(path@),
{
    let v = chars_of(path);
    if v.len() == 0 || (v.len() == 1 && v[0] == '/') {
        proof {
            if v.len() == 1 {
                assert(path@ =~= seq!['/']);
            }
        }
        let mut o: Vec<char> = Vec::new();
        o.push('/');
        assert(o@ =~= seq!['/']);
        return string_of(o.as_slice());
    }
    assert(path@ != seq!['/']) by {
        if path@ == seq!['/'] {
            assert(v@.len() == 1 && v@[0] == '/');
        }
    }
    let mut i: usize = 0;
    assert(v@.subrange(0, v@.len() as int) == v@);
    while i < v.len() && v[i] == '/'
        invariant
            i <= v.len(),
            v@ == path@,
            strip_leading_slashes(path@) == strip_leading_slashes(v@.subrange(i as int, v@.len() as int)),
        decreases v.len() - i,
    {
        proof {
            let t = v@.subrange(i as int, v@.len() as int);
            assert(t[0] == '/');
            assert(t.subrange(1, t.len() as int) == v@.subrange(i + 1, v@.len() as int));
        }
        i = i + 1;
    }
    proof {
        if i < v.len() {
            assert(v@.subrange(i as int, v@.len() as int)[0] == v@[i as int]);
        }
    }
    let rest = vstd::slice::slice_subrange(v.as_slice(), i, v.len());
    let mut o: Vec<char> = Vec::new();
    o.push('/');
    if rest.len() == 0 {
        assert(o@ =~= seq!['/']);
        return string_of(o.as_slice());
    }
    let rest_s = string_of(rest);
    let enc = url_encode(rest_s.as_str());
    let ec = chars_of(enc.as_str());
    let un = unescape_slashes_exec(ec.as_slice());
    push_chars(&mut o, un.as_slice());
    assert(o@ =~= canonical_path(path@));
    string_of(o.as_slice())
}


// ---------------------------------------------------------------------------
// Canonical query
// ---------------------------------------------------------------------------

/// Sorted position for a query pair keyed `k`: after every pair whose key
/// sorts at or before `k` (so equal keys keep their order).
pub open spec fn query_pos(m: Seq<(Seq<char>, Seq<char>)>, k: Seq<char>) -> nat
    decreases m.len(),
{
    if m.len() > 0 && !key_lt(k, m[0].0) {
        1 + query_pos(m.subrange(1, m.len() as int), k)
    } else {
        0
    }
}

/// The query pairs stably sorted by key.
pub open spec fn query_sorted(p: Seq<(Seq<char>, Seq<char>)>) -> Seq<(Seq<char>, Seq<char>)>
    decreases p.len(),
{
    if p.len() == 0 {
        Seq::empty()
    } else {
        let m = query_sorted(p.drop_last());
        m.insert(query_pos(m, p.last().0) as int, p.last())
    }
}

proof fn lemma_query_pos(m: Seq<(Seq<char>, Seq<char>)>, k: Seq<char>)
    ensures
        query_pos(m, k) <= m.len(),
        forall|i: int| 0 <= i < query_pos(m, k) ==> !key_lt(k, #[trigger] m[i].0),
        query_pos(m, k) < m.len() ==> key_lt(k, m[query_pos(m, k) as int].0),
    decreases m.len(),
{
    if m.len() > 0 && !key_lt(k, m[0].0) {
        let t = m.subrange(1, m.len() as int);
        lemma_query_pos(t, k);
        assert forall|i: int| 0 <= i < query_pos(m, k) implies !key_lt(k, #[trigger] m[i].0) by {
            if i > 0 {
                assert(m[i] == t[i - 1]);
            }
        }
        if query_pos(m, k) < m.len() {
            assert(m[query_pos(m, k) as int] == t[query_pos(t, k) as int]);
        }
    }
}

/// Whether the keys of `q` are in ascending order.
pub open spec fn keys_ascending(q: Seq<(Seq<char>, Seq<char>)>) -> bool {
    forall|i: int, j: int| 0 <= i < j < q.len() ==> !key_lt(#[trigger] q[j].0, #[trigger] q[i].0)
}

/// The canonical query lists the parameters in ascending order of key
/// (keys compared code point by code point), and it holds exactly the
/// given parameters, each as often as given.
pub proof fn law_query_sorted(p: Seq<(Seq<char>, Seq<char>)>)
    ensures
        keys_ascending(query_sorted(p)),
        query_sorted(p).to_multiset() =~= p.to_multiset(),
    decreases p.len(),
{
    broadcast use vstd::seq_lib::group_to_multiset_ensures;
    if p.len() > 0 {
        let m = query_sorted(p.drop_last());
        law_query_sorted(p.drop_last());
        let x = p.last();
        let k = x.0;
        lemma_query_pos(m, k);
        let pos = query_pos(m, k) as int;
        let q = m.insert(pos, x);
        assert(q == query_sorted(p));
        assert forall|i: int, j: int| 0 <= i < j < q.len() implies !key_lt(#[trigger] q[j].0, #[trigger] q[i].0) by {
            if j < pos {
                assert(q[i] == m[i] && q[j] == m[j]);
            } else if j == pos {
                assert(q[i] == m[i] && q[j] == x);
                lemma_key_trichotomy(k, m[i].0);
            } else if i < pos {
                assert(q[i] == m[i] && q[j] == m[j - 1]);
            } else if i == pos {
                assert(q[i] == x && q[j] == m[j - 1]);
                let a = m[pos].0;
                let b = m[j - 1].0;
                lemma_key_trichotomy(b, a);
                if key_lt(b, k) {
                    lemma_key_transitive(b, k, a);
                }
            } else {
                assert(q[i] == m[i - 1] && q[j] == m[j - 1]);
            }
        }
        assert(q.remove(pos) =~= m);
        assert(q[pos] == x);
        assert(p.drop_last().push(x) =~= p);
        assert(q.to_multiset().count(x) > 0) by {
            assert(q.contains(x));
        }
        assert(q.to_multiset() =~= m.to_multiset().insert(x)) by {
            assert(m.to_multiset() =~= q.to_multiset().remove(x));
        }
    } else {
        assert(query_sorted(p) =~= p);
    }
}

/// `key=value` with both sides URL encoded.
pub open spec fn query_item(x: (Seq<char>, Seq<char>)) -> Seq<char> {
    url_encoded(encode_utf8(x.0)) + seq!['='] + url_encoded(encode_utf8(x.1))
}

/// The canonical query string: the pairs sorted by key, each URL encoded as
/// `key=value`, joined by `&`.
pub open spec fn canonical_query(p: Seq<(Seq<char>, Seq<char>)>) -> Seq<char> {
    crate::chars::join_with(query_sorted(p).map_values(|x: (Seq<char>, Seq<char>)| query_item(x)), seq!['&'])
}

fn query_pos_exec(m: &Vec<(String, String)>, k: &str) -> (r: usize)
    ensures
        r == query_pos(pairs_view(m@), k@),
        r <= m.len(),
{
    let ghost mv = pairs_view(m@);
    let kc = chars_of(k);
    assert(mv.subrange(0, mv.len() as int) == mv);
    let mut i: usize = 0;
    while i < m.len() && key_compare_str(kc.as_slice(), m[i].0.as_str()) != -1
        invariant
            i <= m.len(),
            mv == pairs_view(m@),
            mv.len() == m@.len(),
            kc@ == k@,
            query_pos(mv, k@) == i + query_pos(mv.subrange(i as int, mv.len() as int), k@),
        decreases m.len() - i,
    {
        proof {
            let t = mv.subrange(i as int, mv.len() as int);
            assert(t[0] == mv[i as int]);
            assert(t.subrange(1, t.len() as int) == mv.subrange(i + 1, mv.len() as int));
        }
        i = i + 1;
    }
    proof {
        if i < m.len() {
            let t = mv.subrange(i as int, mv.len() as int);
            assert(t[0] == mv[i as int]);
        } else {
            assert(mv.subrange(i as int, mv.len() as int).len() == 0);
        }
    }
    i
}

fn key_compare_str(a: &[char], b: &str) -> (r: i8)
    ensures
        r == -1 <==> key_lt(a@, b@),
        r == 0 <==> a@ == b@,
        r == 1 <==> key_lt(b@, a@),
{
    let bc = chars_of(b);
    crate::json::key_compare(a, bc.as_slice())
}

/// The query pairs stably sorted by key.
pub fn sort_query(params: &Vec<(String, String)>) -> (r: Vec<(String, String)>)
    ensures
        pairs_view(r@) == query_sorted(pairs_view(params@)),
{
    let ghost pv = pairs_view(params@);
    let mut out: Vec<(String, String)> = Vec::new();
    let mut i: usize = 0;
    assert(pairs_view(out@) =~= query_sorted(pv.subrange(0, 0)));
    while i < params.len()
        invariant
            i <= params.len(),
            pv == pairs_view(params@),
            pairs_view(out@) == query_sorted(pv.subrange(0, i as int)),
        decreases params.len() - i,
    {
        let pos = query_pos_exec(&out, params[i].0.as_str());
        let ghost before = pairs_view(out@);
        out.insert(pos, (params[i].0.clone(), params[i].1.clone()));
        proof {
            let s1 = pv.subrange(0, i + 1);
            assert(s1.drop_last() == pv.subrange(0, i as int));
            assert(s1.last() == pv[i as int]);
            assert(pairs_view(out@) =~= before.insert(pos as int, pv[i as int]));
        }
        i = i + 1;
    }
    assert(pv.subrange(0, params.len() as int) == pv);
    out
}

/// The canonical query string of the request parameters.
pub fn create_canonicalized_query(query: &Vec<(String, String)>) -> (r: String)
    ensures
        r@ == canonical_query(pairs_view(query@)),
{
    let sorted = sort_query(query);
    let ghost sv = pairs_view(sorted@);
    let ghost f = |x: (Seq<char>, Seq<char>)| query_item(x);
    let mut items: Vec<Vec<char>> = Vec::new();
    let mut i: usize = 0;
    while i < sorted.len()
        invariant
            i <= sorted.len(),
            sv == pairs_view(sorted@),
            items@.len() == i,
            sv.len() == sorted@.len(),
            f == (|x: (Seq<char>, Seq<char>)| query_item(x)),
            items@.map_values(|x: Vec<char>| x@) == sv.subrange(0, i as int).map_values(f),
        decreases sorted.len() - i,
    {
        let mut it: Vec<char> = Vec::new();
        let ek = url_encode(sorted[i].0.as_str());
        let ev = url_encode(sorted[i].1.as_str());
        push_str(&mut it, ek.as_str());
        it.push('=');
        push_str(&mut it, ev.as_str());
        let ghost before = items@;
        items.push(it);
        proof {
            assert(it@ == query_item(sv[i as int]));
            assert forall|j: int| 0 <= j < i + 1 implies #[trigger] items@[j]@ == f(sv[j]) by {
                if j < i {
                    assert(items@[j] == before[j]);
                    assert(before.map_values(|x: Vec<char>| x@)[j] == sv.subrange(0, i as int).map_values(f)[j]);
                    assert(before.map_values(|x: Vec<char>| x@)[j] == before[j]@);
                    assert(sv.subrange(0, i as int).map_values(f)[j] == f(sv.subrange(0, i as int)[j]));
                    assert(sv.subrange(0, i as int)[j] == sv[j]);
                } else {
                    assert(items@[j] == it);
                    assert(f(sv[j]) == query_item(sv[j]));
                }
            }
            assert(items@.map_values(|x: Vec<char>| x@) =~= sv.subrange(0, i + 1).map_values(f));
        }
        i = i + 1;
    }
    assert(sv.subrange(0, sorted.len() as int) == sv);
    let sep: Vec<char> = vec!['&'];
    let j = crate::chars::join_chars(&items, sep.as_slice());
    assert(sep@ =~= seq!['&']);
    string_of(j.as_slice())
}


// ---------------------------------------------------------------------------
// Canonical headers and the canonical request
// ---------------------------------------------------------------------------

/// Header names (lowercase) that are not signed.
pub open spec fn unsigned_header(k: Seq<char>) -> bool {
    k == "cache-control"@ || k == "content-type"@ || k == "content-length"@ || k == "expect"@
        || k == "max-forwards"@ || k == "pragma"@ || k == "range"@ || k == "te"@ || k
        == "if-match"@ || k == "if-none-match"@ || k == "if-modified-since"@ || k
        == "if-unmodified-since"@ || k == "if-range"@ || k == "accept"@ || k == "authorization"@
        || k == "proxy-authorization"@ || k == "from"@ || k == "referer"@ || k == "user-agent"@
        || k == "proxy"@
}

/// Sorted position of a header group keyed `k`: after every group whose key
/// sorts before `k`.
pub open spec fn group_pos(m: Seq<(Seq<char>, Seq<char>)>, k: Seq<char>) -> nat
    decreases m.len(),
{
    if m.len() > 0 && key_lt(m[0].0, k) {
        1 + group_pos(m.subrange(1, m.len() as int), k)
    } else {
        0
    }
}

/// Adds the value `v` to the group `k`: appended after a space to an existing
/// group, or as a new group at its sorted position.
pub open spec fn group_add(m: Seq<(Seq<char>, Seq<char>)>, k: Seq<char>, v: Seq<char>) -> Seq<(Seq<char>, Seq<char>)> {
    let p = group_pos(m, k) as int;
    if p < m.len() && m[p].0 == k {
        m.update(p, (k, m[p].1 + seq![' '] + v))
    } else {
        m.insert(p, (k, v))
    }
}

/// Signed headers grouped by lowercase name, sorted by name, each with its
/// values joined by spaces; unsigned names are left out.
pub open spec fn header_groups(h: Seq<(Seq<char>, Seq<char>)>) -> Seq<(Seq<char>, Seq<char>)>
    decreases h.len(),
{
    if h.len() == 0 {
        Seq::empty()
    } else {
        let g = header_groups(h.drop_last());
        let lk = spec_to_lowercase(h.last().0);
        if unsigned_header(lk) {
            g
        } else {
            group_add(g, lk, h.last().1)
        }
    }
}

/// `name:value`.
pub open spec fn header_line(x: (Seq<char>, Seq<char>)) -> Seq<char> {
    x.0 + seq![':'] + x.1
}

/// The signed header names joined by `;`.
pub open spec fn signed_header_names(h: Seq<(Seq<char>, Seq<char>)>) -> Seq<char> {
    crate::chars::join_with(header_groups(h).map_values(|x: (Seq<char>, Seq<char>)| x.0), seq![';'])
}

/// The canonical request: method, canonical path, canonical query, the
/// header lines followed by an empty line, the signed header names and the
/// payload hash, separated by newlines.
pub open spec fn canonical_request(method: Seq<char>, path: Seq<char>, query: Seq<(Seq<char>, Seq<char>)>, headers: Seq<(Seq<char>, Seq<char>)>, payload: Seq<char>) -> Seq<char> {
    method + seq!['\n'] + canonical_path(path) + seq!['\n'] + canonical_query(query) + seq!['\n']
        + crate::chars::join_with(header_groups(headers).map_values(|x: (Seq<char>, Seq<char>)| header_line(x)), seq!['\n'])
        + seq!['\n', '\n'] + signed_header_names(headers) + seq!['\n'] + payload
}

/// The canonical request and the list of signed header names.
pub struct Context {
    /// The canonical request.
    pub creq: String,
    /// The signed header names, joined by `;`.
    pub headers: String,
}

fn is_unsigned_header(k: &[char]) -> (r: bool)
    ensures
        r == unsigned_header(k@),
{
    lit_eq(k, "cache-control") || lit_eq(k, "content-type") || lit_eq(k, "content-length")
        || lit_eq(k, "expect") || lit_eq(k, "max-forwards") || lit_eq(k, "pragma") || lit_eq(k, "range")
        || lit_eq(k, "te") || lit_eq(k, "if-match") || lit_eq(k, "if-none-match") || lit_eq(k, "if-modified-since")
        || lit_eq(k, "if-unmodified-since") || lit_eq(k, "if-range") || lit_eq(k, "accept")
        || lit_eq(k, "authorization") || lit_eq(k, "proxy-authorization") || lit_eq(k, "from")
        || lit_eq(k, "referer") || lit_eq(k, "user-agent") || lit_eq(k, "proxy")
}

fn lit_eq(k: &[char], lit: &str) -> (r: bool)
    ensures
        r == (k@ == lit@),
{
    let l = chars_of(lit);
    chars_eq(k, l.as_slice())
}

fn group_pos_exec(m: &Vec<(Vec<char>, Vec<char>)>, k: &[char]) -> (r: usize)
    ensures
        r == group_pos(m@.map_values(|x: (Vec<char>, Vec<char>)| (x.0@, x.1@)), k@),
        r <= m.len(),
{
    let ghost mv = m@.map_values(|x: (Vec<char>, Vec<char>)| (x.0@, x.1@));
    assert(mv.subrange(0, mv.len() as int) == mv);
    let mut i: usize = 0;
    while i < m.len() && crate::json::key_compare(m[i].0.as_slice(), k) == -1
        invariant
            i <= m.len(),
            mv == m@.map_values(|x: (Vec<char>, Vec<char>)| (x.0@, x.1@)),
            mv.len() == m@.len(),
            group_pos(mv, k@) == i + group_pos(mv.subrange(i as int, mv.len() as int), k@),
        decreases m.len() - i,
    {
        proof {
            let t = mv.subrange(i as int, mv.len() as int);
            assert(t[0] == mv[i as int]);
            assert(t.subrange(1, t.len() as int) == mv.subrange(i + 1, mv.len() as int));
        }
        i = i + 1;
    }
    proof {
        if i < m.len() {
            let t = mv.subrange(i as int, mv.len() as int);
            assert(t[0] == mv[i as int]);
        } else {
            assert(mv.subrange(i as int, mv.len() as int).len() == 0);
        }
    }
    i
}

/// Groups the signed headers by lowercase name.
pub fn group_headers(headers: &Vec<(String, String)>) -> (r: Vec<(Vec<char>, Vec<char>)>)
    ensures
        r@.map_values(|x: (Vec<char>, Vec<char>)| (x.0@, x.1@)) == header_groups(pairs_view(headers@)),
{
    let ghost hv = pairs_view(headers@);
    let mut g: Vec<(Vec<char>, Vec<char>)> = Vec::new();
    let mut i: usize = 0;
    assert(g@.map_values(|x: (Vec<char>, Vec<char>)| (x.0@, x.1@)) =~= header_groups(hv.subrange(0, 0)));
    while i < headers.len()
        invariant
            i <= headers.len(),
            hv == pairs_view(headers@),
            g@.map_values(|x: (Vec<char>, Vec<char>)| (x.0@, x.1@)) == header_groups(hv.subrange(0, i as int)),
        decreases headers.len() - i,
    {
        let ghost gv = g@.map_values(|x: (Vec<char>, Vec<char>)| (x.0@, x.1@));
        proof {
            let s1 = hv.subrange(0, i + 1);
            assert(s1.drop_last() == hv.subrange(0, i as int));
            assert(s1.last() == hv[i as int]);
        }
        let lk = to_lowercase(headers[i].0.as_str());
        let lkc = chars_of(lk.as_str());
        let vc = chars_of(headers[i].1.as_str());
        if !is_unsigned_header(lkc.as_slice()) {
            let p = group_pos_exec(&g, lkc.as_slice());
            if p < g.len() && chars_eq(g[p].0.as_slice(), lkc.as_slice()) {
                let mut nv: Vec<char> = Vec::new();
                push_chars(&mut nv, g[p].1.as_slice());
                nv.push(' ');
                push_chars(&mut nv, vc.as_slice());
                let ghost nvv = nv@;
                g.set(p, (lkc, nv));
                proof {
                    assert(nvv == gv[p as int].1 + seq![' '] + hv[i as int].1);
                    assert(g@.map_values(|x: (Vec<char>, Vec<char>)| (x.0@, x.1@)) =~= group_add(gv, spec_to_lowercase(hv[i as int].0), hv[i as int].1));
                }
            } else {
                let ghost lkv = lkc@;
                g.insert(p, (lkc, vc));
                proof {
                    assert(g@.map_values(|x: (Vec<char>, Vec<char>)| (x.0@, x.1@)) =~= group_add(gv, lkv, hv[i as int].1));
                }
            }
        }
        i = i + 1;
    }
    assert(hv.subrange(0, headers.len() as int) == hv);
    g
}

/// Builds the canonical request and the signed header list.
pub fn create_context(method: &str, path: &str, query: &Vec<(String, String)>, headers: &Vec<(String, String)>, payload: &str) -> (r: Context)
    ensures
        r.creq@ == canonical_request(method@, path@, pairs_view(query@), pairs_view(headers@), payload@),
        r.headers@ == signed_header_names(pairs_view(headers@)),
{
    let cpath = create_canonicalized_path(path);
    let cquery = create_canonicalized_query(query);
    let g = group_headers(headers);
    let ghost gv = g@.map_values(|x: (Vec<char>, Vec<char>)| (x.0@, x.1@));
    let mut lines: Vec<Vec<char>> = Vec::new();
    let mut names: Vec<Vec<char>> = Vec::new();
    let mut i: usize = 0;
    while i < g.len()
        invariant
            i <= g.len(),
            gv == g@.map_values(|x: (Vec<char>, Vec<char>)| (x.0@, x.1@)),
            gv.len() == g@.len(),
            lines@.len() == i,
            names@.len() == i,
            forall|j: int| 0 <= j < i ==> #[trigger] lines@[j]@ == header_line(gv[j]),
            forall|j: int| 0 <= j < i ==> #[trigger] names@[j]@ == gv[j].0,
        decreases g.len() - i,
    {
        let mut l: Vec<char> = Vec::new();
        push_chars(&mut l, g[i].0.as_slice());
        l.push(':');
        push_chars(&mut l, g[i].1.as_slice());
        let mut n: Vec<char> = Vec::new();
        push_chars(&mut n, g[i].0.as_slice());
        proof {
            assert(gv[i as int] == (g@[i as int].0@, g@[i as int].1@));
            assert(l@ == header_line(gv[i as int]));
            assert(n@ == gv[i as int].0);
        }
        lines.push(l);
        names.push(n);
        i = i + 1;
    }
    assert(lines@.map_values(|x: Vec<char>| x@) =~= gv.map_values(|x: (Seq<char>, Seq<char>)| header_line(x)));
    assert(names@.map_values(|x: Vec<char>| x@) =~= gv.map_values(|x: (Seq<char>, Seq<char>)| x.0));
    let nl: Vec<char> = vec!['\n'];
    let semi: Vec<char> = vec![';'];
    let lines_text = crate::chars::join_chars(&lines, nl.as_slice());
    let names_text = crate::chars::join_chars(&names, semi.as_slice());
    assert(nl@ =~= seq!['\n']);
    assert(semi@ =~= seq![';']);
    let mut c: Vec<char> = Vec::new();
    push_str(&mut c, method);
    c.push('\n');
    push_str(&mut c, cpath.as_str());
    c.push('\n');
    push_str(&mut c, cquery.as_str());
    c.push('\n');
    push_chars(&mut c, lines_text.as_slice());
    c.push('\n');
    c.push('\n');
    push_chars(&mut c, names_text.as_slice());
    c.push('\n');
    push_str(&mut c, payload);
    assert(c@ =~= canonical_request(method@, path@, pairs_view(query@), pairs_view(headers@), payload@));
    Context { creq: string_of(c.as_slice()), headers: string_of(names_text.as_slice()) }
}


// ---------------------------------------------------------------------------
// Signing key, string to sign, signature
// ---------------------------------------------------------------------------

/// The signing key for a date, region, service and secret key:
/// `HMAC(HMAC(HMAC(HMAC("AWS4" + secret, date), region), service), "aws4_request")`.
pub open spec fn signing_key(short_date: Seq<char>, region: Seq<char>, service: Seq<char>, secret: Seq<char>) -> Seq<u8> {
    let k_date = spec_hmac_sha256(encode_utf8("AWS4"@ + secret), encode_utf8(short_date));
    let k_region = spec_hmac_sha256(k_date, encode_utf8(region));
    let k_service = spec_hmac_sha256(k_region, encode_utf8(service));
    spec_hmac_sha256(k_service, encode_utf8("aws4_request"@))
}

/// The key under which a signing key is cached.
pub open spec fn cache_key(short_date: Seq<char>, region: Seq<char>, service: Seq<char>, secret: Seq<char>) -> Seq<char> {
    short_date + seq!['_'] + region + seq!['_'] + service + seq!['_'] + ("AWS4"@ + secret)
}

/// The cached value under the first entry named `k`.
pub open spec fn cache_lookup(c: Seq<(Seq<char>, Seq<u8>)>, k: Seq<char>) -> Option<Seq<u8>>
    decreases c.len(),
{
    if c.len() == 0 {
        None
    } else if c[0].0 == k {
        Some(c[0].1)
    } else {
        cache_lookup(c.subrange(1, c.len() as int), k)
    }
}

/// Whether a cache entry holds the signing key of the inputs its name was built from.
pub open spec fn cache_entry_valid(e: (Seq<char>, Seq<u8>)) -> bool {
    exists|d: Seq<char>, r: Seq<char>, s: Seq<char>, k: Seq<char>|
        e.0 == #[trigger] cache_key(d, r, s, k) && e.1 == signing_key(d, r, s, k)
}

/// Most signing keys the cache holds before it is emptied.
pub open spec fn cache_limit() -> nat {
    50
}

/// The string to sign: algorithm, timestamp, scope and the hex SHA-256 of
/// the canonical request, separated by newlines.
pub open spec fn string_to_sign(long_date: Seq<char>, scope: Seq<char>, creq: Seq<char>) -> Seq<char> {
    "AWS4-HMAC-SHA256"@ + seq!['\n'] + long_date + seq!['\n'] + scope + seq!['\n'] + hex_lower(spec_sha256(encode_utf8(creq)))
}

/// The signature: hex HMAC of the string to sign under the signing key.
pub open spec fn signature_text(string_to_sign: Seq<char>, key: Seq<u8>) -> Seq<char> {
    hex_lower(spec_hmac_sha256(key, encode_utf8(string_to_sign)))
}

/// Request signer; caches derived signing keys.
pub struct SignatureV4 {
    cache: Vec<(String, Vec<u8>)>,
    cache_size: usize,
}

impl SignatureV4 {
    /// The cache entries.
    pub closed spec fn cache_view(&self) -> Seq<(Seq<char>, Seq<u8>)> {
        self.cache@.map_values(|e: (String, Vec<u8>)| (e.0@, e.1@))
    }

    /// The cache holds at most `cache_limit()` entries, counted by
    /// `cache_size`, and each holds the key derived from its name's inputs.
    #[verifier::type_invariant]
    closed spec fn wf(&self) -> bool {
        &&& self.cache_size == self.cache@.len()
        &&& self.cache@.len() <= cache_limit()
        &&& forall|i: int| 0 <= i < self.cache@.len() ==> cache_entry_valid(#[trigger] self.cache_view()[i])
    }

    /// A signer with an empty cache.
    pub fn new() -> (s: Self)
        ensures
            s.cache_view() == Seq::<(Seq<char>, Seq<u8>)>::empty(),
    {
        let s = SignatureV4 { cache: Vec::new(), cache_size: 0 };
        assert(s.cache_view() =~= Seq::<(Seq<char>, Seq<u8>)>::empty());
        s
    }

    /// The credential scope for a date, region and service.
    pub fn create_scope(&self, short_date: &str, region: &str, service: &str) -> (r: String)
        ensures
            r@ == scope_text(short_date@, region@, service@),
    {
        create_scope(short_date, region, service)
    }

    /// The canonical request and the signed header list.
    pub fn create_context(&self, method: &str, path: &str, query: &Vec<(String, String)>, headers: &Vec<(String, String)>, payload: &str) -> (r: Context)
        ensures
            r.creq@ == canonical_request(method@, path@, pairs_view(query@), pairs_view(headers@), payload@),
            r.headers@ == signed_header_names(pairs_view(headers@)),
    {
        create_context(method, path, query, headers, payload)
    }

    fn find_cached(&self, key: &[char]) -> (r: Option<Vec<u8>>)
        ensures
            match cache_lookup(self.cache_view(), key@) {
                Some(v) => r matches Some(x) && x@ == v,
                None => r is None,
            },
    {
        let ghost cv = self.cache_view();
        assert(cv.subrange(0, cv.len() as int) == cv);
        let mut i: usize = 0;
        while i < self.cache.len()
            invariant
                i <= self.cache@.len(),
                cv == self.cache_view(),
                cv == self.cache@.map_values(|e: (String, Vec<u8>)| (e.0@, e.1@)),
                cv.len() == self.cache@.len(),
                cache_lookup(cv, key@) == cache_lookup(cv.subrange(i as int, cv.len() as int), key@),
            decreases self.cache.len() - i,
        {
            let kc = chars_of(self.cache[i].0.as_str());
            proof {
                let t = cv.subrange(i as int, cv.len() as int);
                assert(t[0] == cv[i as int]);
                assert(t.subrange(1, t.len() as int) == cv.subrange(i + 1, cv.len() as int));
            }
            if chars_eq(kc.as_slice(), key) {
                let mut out: Vec<u8> = Vec::new();
                let src = &self.cache[i].1;
                let mut j: usize = 0;
                while j < src.len()
                    invariant
                        j <= src.len(),
                        out@ == src@.subrange(0, j as int),
                    decreases src.len() - j,
                {
                    out.push(src[j]);
                    j = j + 1;
                    assert(out@ == src@.subrange(0, j as int));
                }
                assert(out@ == src@);
                return Some(out);
            }
            i = i + 1;
        }
        None
    }

    /// The signing key for the inputs: the cached key when one is stored
    /// under the same cache name, otherwise a freshly derived key, which is
    /// then cached (after emptying a full cache).
    pub fn get_signing_key(&mut self, short_date: &str, region: &str, service: &str, secret_key: &str) -> (r: Vec<u8>)
        ensures
            forall|i: int| 0 <= i < old(self).cache_view().len() ==> cache_entry_valid(#[trigger] old(self).cache_view()[i]),
            underscores(short_date@) == 0 && underscores(region@) == 0 && underscores(service@) == 0
                && underscores(secret_key@) == 0 ==> r@ == signing_key(short_date@, region@, service@, secret_key@),
            match cache_lookup(old(self).cache_view(), cache_key(short_date@, region@, service@, secret_key@)) {
                Some(v) => r@ == v && final(self).cache_view() == old(self).cache_view(),
                None => r@ == signing_key(short_date@, region@, service@, secret_key@)
                    && final(self).cache_view() == (if old(self).cache_view().len() >= cache_limit() {
                        Seq::<(Seq<char>, Seq<u8>)>::empty()
                    } else {
                        old(self).cache_view()
                    }).push((cache_key(short_date@, region@, service@, secret_key@), r@)),
            },
    {
        proof { use_type_invariant(&*self); }
        assert(self.cache_view() == self.cache@.map_values(|e: (String, Vec<u8>)| (e.0@, e.1@)));
        let mut ks: Vec<char> = Vec::new();
        push_str(&mut ks, "AWS4");
        push_str(&mut ks, secret_key);
        let mut ck: Vec<char> = Vec::new();
        push_str(&mut ck, short_date);
        ck.push('_');
        push_str(&mut ck, region);
        ck.push('_');
        push_str(&mut ck, service);
        ck.push('_');
        push_chars(&mut ck, ks.as_slice());
        assert(ck@ =~= cache_key(short_date@, region@, service@, secret_key@));
        proof {
            if underscores(short_date@) == 0 && underscores(region@) == 0 && underscores(service@) == 0
                && underscores(secret_key@) == 0 {
                lemma_cached_key_is_derived(self.cache_view(), short_date@, region@, service@, secret_key@);
            }
        }
        if let Some(v) = self.find_cached(ck.as_slice()) {
            return v;
        }
        let ks_str = string_of(ks.as_slice());
        let k_date = hmac_sha256(ks_str.as_str().as_bytes(), short_date.as_bytes());
        let k_region = hmac_sha256(k_date.as_slice(), region.as_bytes());
        let k_service = hmac_sha256(k_region.as_slice(), service.as_bytes());
        let k_signing = hmac_sha256(k_service.as_slice(), "aws4_request".as_bytes());
        let mut copy: Vec<u8> = Vec::new();
        let mut j: usize = 0;
        while j < k_signing.len()
            invariant
                j <= k_signing.len(),
                copy@ == k_signing@.subrange(0, j as int),
            decreases k_signing.len() - j,
        {
            copy.push(k_signing[j]);
            j = j + 1;
            assert(copy@ == k_signing@.subrange(0, j as int));
        }
        assert(copy@ == k_signing@);
        let mut cache: Vec<(String, Vec<u8>)> = Vec::new();
        if self.cache_size < 50 {
            let mut i: usize = 0;
            while i < self.cache.len()
                invariant
                    i <= self.cache@.len(),
                    cache@.len() == i,
                    forall|j: int| 0 <= j < i ==> #[trigger] cache@[j].0@ == self.cache@[j].0@ && cache@[j].1@ == self.cache@[j].1@,
                decreases self.cache.len() - i,
            {
                let k = self.cache[i].0.clone();
                let v = vstd::slice::slice_to_vec(self.cache[i].1.as_slice());
                cache.push((k, v));
                i = i + 1;
            }
            assert(cache@.map_values(|e: (String, Vec<u8>)| (e.0@, e.1@)) =~= self.cache_view());
        } else {
            assert(cache@.map_values(|e: (String, Vec<u8>)| (e.0@, e.1@)) =~= Seq::<(Seq<char>, Seq<u8>)>::empty());
        }
        let ghost before = cache@;
        let ghost entry = (ck@, k_signing@);
        proof {
            assert(cache_entry_valid(entry)) by {
                assert(entry.0 == cache_key(short_date@, region@, service@, secret_key@));
            }
        }
        cache.push((string_of(ck.as_slice()), copy));
        let n = cache.len();
        proof {
            let nv = cache@.map_values(|e: (String, Vec<u8>)| (e.0@, e.1@));
            assert(nv =~= before.map_values(|e: (String, Vec<u8>)| (e.0@, e.1@)).push(entry));
            assert forall|i: int| 0 <= i < cache@.len() implies cache_entry_valid(#[trigger] nv[i]) by {
                if i < cache@.len() - 1 {
                    assert(nv[i] == old(self).cache_view()[i]);
                }
            }
        }
        *self = SignatureV4 { cache, cache_size: n };
        assert(self.cache_view() =~= before.map_values(|e: (String, Vec<u8>)| (e.0@, e.1@)).push(entry));

        k_signing
    }

    /// The hex signature of `string_to_sign` under `signing_key`.
    pub fn compute_signature(&self, string_to_sign: &str, signing_key: &[u8]) -> (r: String)
        ensures
            r@ == signature_text(string_to_sign@, signing_key@),
    {
        let mac = hmac_sha256(signing_key, string_to_sign.as_bytes());
        hex_encode(mac.as_slice())
    }

    /// The string to sign for a timestamp, scope and canonical request.
    pub fn create_string_to_sign(&self, long_date: &str, credential_scope: &str, canonical_request: &str) -> (r: String)
        ensures
            r@ == string_to_sign(long_date@, credential_scope@, canonical_request@),
    {
        let h = sha256(canonical_request.as_bytes());
        let mut out: Vec<char> = Vec::new();
        push_str(&mut out, "AWS4-HMAC-SHA256");
        out.push('\n');
        push_str(&mut out, long_date);
        out.push('\n');
        push_str(&mut out, credential_scope);
        out.push('\n');
        push_hex(&mut out, h.as_slice());
        assert(out@ =~= string_to_sign(long_date@, credential_scope@, canonical_request@));
        string_of(out.as_slice())
    }
}

impl Default for SignatureV4 {
    fn default() -> (s: Self)
        ensures
            s.cache_view() == Seq::<(Seq<char>, Seq<u8>)>::empty(),
    {
        SignatureV4::new()
    }
}


// ---------------------------------------------------------------------------
// Signing a request
// ---------------------------------------------------------------------------

/// The value of `k` in the credentials, or `default`.
pub open spec fn cred_or(creds: Seq<(Seq<char>, Seq<char>)>, k: Seq<char>, default: Seq<char>) -> Seq<char> {
    match pairs_lookup(creds, k) {
        Some(v) => v,
        None => default,
    }
}

/// The request headers with the timestamp, host and session token added.
pub open spec fn dated_headers(headers: Seq<(Seq<char>, Seq<char>)>, long_date: Seq<char>, host: Option<Seq<char>>, creds: Seq<(Seq<char>, Seq<char>)>) -> Seq<(Seq<char>, Seq<char>)> {
    let h1 = pairs_set(headers, "X-Amz-Date"@, long_date);
    let h2 = match host {
        Some(h) => pairs_set(h1, "Host"@, h),
        None => h1,
    };
    match pairs_lookup(creds, "st"@) {
        Some(st) => pairs_set(h2, "X-Amz-Security-Token"@, st),
        None => h2,
    }
}

/// The `Authorization` header value.
pub open spec fn authorization_text(access_key: Seq<char>, scope: Seq<char>, signed_headers: Seq<char>, signature: Seq<char>) -> Seq<char> {
    "AWS4-HMAC-SHA256 Credential="@ + access_key + seq!['/'] + scope + ", SignedHeaders="@ + signed_headers + ", Signature="@ + signature
}

/// Everything that signing a request determines for one timestamp: the
/// outcome (signed headers or error text) and the signer's cache after.
pub open spec fn sign_outcome(
    cache: Seq<(Seq<char>, Seq<u8>)>,
    long_date: Seq<char>,
    method: Seq<char>,
    url: Seq<char>,
    params: Seq<(Seq<char>, Seq<char>)>,
    headers: Seq<(Seq<char>, Seq<char>)>,
    body: Seq<u8>,
    creds: Seq<(Seq<char>, Seq<char>)>,
) -> (Result<Seq<(Seq<char>, Seq<char>)>, Seq<char>>, Seq<(Seq<char>, Seq<u8>)>) {
    match spec_url_path_host(url) {
        Err(e) => (Err("URL解析失败: "@ + e), cache),
        Ok((path, host)) => {
            let sdt = long_date.subrange(0, 8);
            let region = cred_or(creds, "region"@, "cn-north-1"@);
            let service = cred_or(creds, "service"@, "vod"@);
            let scope = scope_text(sdt, region, service);
            let h = dated_headers(headers, long_date, host, creds);
            let payload = hex_lower(spec_sha256(body));
            let creq = canonical_request(method, path, params, h, payload);
            let sts = string_to_sign(long_date, scope, creq);
            match pairs_lookup(creds, "sk"@) {
                None => (Err("缺少SecretAccessKey"@), cache),
                Some(sk) => {
                    let ck = cache_key(sdt, region, service, sk);
                    let (key, cache2) = match cache_lookup(cache, ck) {
                        Some(v) => (v, cache),
                        None => {
                            let k = signing_key(sdt, region, service, sk);
                            (k, (if cache.len() >= cache_limit() { Seq::empty() } else { cache }).push((ck, k)))
                        },
                    };
                    match pairs_lookup(creds, "ak"@) {
                        None => (Err("缺少AccessKeyID"@), cache2),
                        Some(ak) => {
                            let auth = authorization_text(ak, scope, signed_header_names(h), signature_text(sts, key));
                            (Ok(pairs_set(h, "Authorization"@, auth)), cache2)
                        },
                    }
                },
            }
        },
    }
}

/// The model of a signing result.
pub open spec fn sign_result_view(r: Result<Vec<(String, String)>, String>) -> Result<Seq<(Seq<char>, Seq<char>)>, Seq<char>> {
    match r {
        Ok(h) => Ok(pairs_view(h@)),
        Err(e) => Err(e@),
    }
}

/// A copy of a list of string pairs.
pub fn copy_pairs(p: &Vec<(String, String)>) -> (r: Vec<(String, String)>)
    ensures
        pairs_view(r@) == pairs_view(p@),
{
    let mut out: Vec<(String, String)> = Vec::new();
    let mut i: usize = 0;
    while i < p.len()
        invariant
            i <= p.len(),
            out@.len() == i,
            forall|j: int| 0 <= j < i ==> #[trigger] out@[j].0@ == p@[j].0@ && out@[j].1@ == p@[j].1@,
        decreases p.len() - i,
    {
        out.push((p[i].0.clone(), p[i].1.clone()));
        i = i + 1;
    }
    assert(pairs_view(out@) =~= pairs_view(p@));
    out
}

fn str_from(s: &str) -> (r: String)
    ensures
        r@ == s@,
{
    String::from_str(s)
}

impl SignatureV4 {
    /// Signs a request at the timestamp `long_date` (`YYYYMMDDTHHMMSSZ`):
    /// returns the request headers with `X-Amz-Date`, `Host`, the session
    /// token and `Authorization` set, or the error text.
    pub fn sign_request_headers_at(
        &mut self,
        long_date: &str,
        method: &str,
        url: &str,
        params: &Vec<(String, String)>,
        headers: &Vec<(String, String)>,
        body: &[u8],
        credentials: &Vec<(String, String)>,
    ) -> (r: Result<Vec<(String, String)>, String>)
        requires
            long_date@.len() >= 8,
        ensures
            (sign_result_view(r), final(self).cache_view()) == sign_outcome(old(self).cache_view(), long_date@, method@, url@,
                pairs_view(params@), pairs_view(headers@), body@, pairs_view(credentials@)),
    {
        let (path, host) = match url_path_host(url) {
            Ok(x) => x,
            Err(e) => {
                let mut m: Vec<char> = Vec::new();
                push_str(&mut m, "URL解析失败: ");
                push_str(&mut m, e.as_str());
                return Err(string_of(m.as_slice()));
            },
        };
        let ldt = chars_of(long_date);
        let sdt = string_of(vstd::slice::slice_subrange(ldt.as_slice(), 0, 8));
        let region = match get_pair(credentials, "region") {
            Some(v) => v.clone(),
            None => str_from("cn-north-1"),
        };
        let service = match get_pair(credentials, "service") {
            Some(v) => v.clone(),
            None => str_from("vod"),
        };
        let scope = create_scope(sdt.as_str(), region.as_str(), service.as_str());
        let mut sh = copy_pairs(headers);
        set_pair(&mut sh, str_from("X-Amz-Date"), str_from(long_date));
        match host {
            Some(h) => set_pair(&mut sh, str_from("Host"), h),
            None => {},
        }
        match get_pair(credentials, "st") {
            Some(st) => set_pair(&mut sh, str_from("X-Amz-Security-Token"), st.clone()),
            None => {},
        }
        let digest = sha256(body);
        let mut ph: Vec<char> = Vec::new();
        push_hex(&mut ph, digest.as_slice());
        let payload_hash = string_of(ph.as_slice());
        let context = create_context(method, path.as_str(), params, &sh, payload_hash.as_str());
        let sts = self.create_string_to_sign(long_date, scope.as_str(), context.creq.as_str());
        let sk = match get_pair(credentials, "sk") {
            Some(v) => v,
            None => return Err(str_from("缺少SecretAccessKey")),
        };
        let key = self.get_signing_key(sdt.as_str(), region.as_str(), service.as_str(), sk.as_str());
        let signature = self.compute_signature(sts.as_str(), key.as_slice());
        let ak = match get_pair(credentials, "ak") {
            Some(v) => v,
            None => return Err(str_from("缺少AccessKeyID")),
        };
        let mut auth: Vec<char> = Vec::new();
        push_str(&mut auth, "AWS4-HMAC-SHA256 Credential=");
        push_str(&mut auth, ak.as_str());
        auth.push('/');
        push_str(&mut auth, scope.as_str());
        push_str(&mut auth, ", SignedHeaders=");
        push_str(&mut auth, context.headers.as_str());
        push_str(&mut auth, ", Signature=");
        push_str(&mut auth, signature.as_str());
        assert(auth@ =~= authorization_text(ak@, scope@, context.headers@, signature@));
        set_pair(&mut sh, str_from("Authorization"), string_of(auth.as_slice()));
        Ok(sh)
    }

    /// Signs a request at the current time; see `sign_request_headers_at`.
    /// The outcome is the one that signing at some timestamp (the clock's
    /// reading: at least sixteen characters, ending with `T`, six time
    /// digits and `Z`) gives.
    pub fn sign_request_headers(
        &mut self,
        method: &str,
        url: &str,
        params: &Vec<(String, String)>,
        headers: &Vec<(String, String)>,
        body: &[u8],
        credentials: &Vec<(String, String)>,
    ) -> (r: Result<Vec<(String, String)>, String>)
        ensures
            exists|long_date: Seq<char>| long_date.len() >= 16 && long_date[long_date.len() - 8] == 'T'
                && long_date[long_date.len() - 1] == 'Z' && (sign_result_view(r), final(self).cache_view())
                == sign_outcome(old(self).cache_view(), long_date, method@, url@,
                pairs_view(params@), pairs_view(headers@), body@, pairs_view(credentials@)),
    {
        let now = utc_now_amz_date();
        self.sign_request_headers_at(now.as_str(), method, url, params, headers, body, credentials)
    }
}


// ---------------------------------------------------------------------------
// The cache gives back what derivation gives
// ---------------------------------------------------------------------------

/// Number of `_` characters in `x`.
pub open spec fn underscores(x: Seq<char>) -> nat
    decreases x.len(),
{
    if x.len() == 0 {
        0
    } else {
        underscores(x.drop_last()) + if x.last() == '_' { 1nat } else { 0nat }
    }
}

proof fn lemma_underscores_concat(a: Seq<char>, b: Seq<char>)
    ensures
        underscores(a + b) == underscores(a) + underscores(b),
    decreases b.len(),
{
    if b.len() > 0 {
        assert((a + b).drop_last() == a + b.drop_last());
        lemma_underscores_concat(a, b.drop_last());
    } else {
        assert(a + b == a);
    }
}

proof fn lemma_no_underscore_index(x: Seq<char>, i: int)
    requires
        underscores(x) == 0,
        0 <= i < x.len(),
    ensures
        x[i] != '_',
    decreases x.len(),
{
    if i < x.len() - 1 {
        lemma_no_underscore_index(x.drop_last(), i);
    }
}

proof fn lemma_split_at_underscore(x: Seq<char>, a: Seq<char>, y: Seq<char>, b: Seq<char>)
    requires
        underscores(x) == 0,
        underscores(y) == 0,
        x + seq!['_'] + a == y + seq!['_'] + b,
    ensures
        x == y,
        a == b,
{
    let l = x + seq!['_'] + a;
    let rr = y + seq!['_'] + b;
    if x.len() < y.len() {
        assert(l[x.len() as int] == '_');
        lemma_no_underscore_index(y, x.len() as int);
        assert(rr[x.len() as int] == y[x.len() as int]);
    } else if y.len() < x.len() {
        assert(rr[y.len() as int] == '_');
        lemma_no_underscore_index(x, y.len() as int);
        assert(l[y.len() as int] == x[y.len() as int]);
    }
    assert(x =~= l.subrange(0, x.len() as int));
    assert(y =~= rr.subrange(0, y.len() as int));
    assert(a =~= l.subrange(x.len() as int + 1, l.len() as int));
    assert(b =~= rr.subrange(y.len() as int + 1, rr.len() as int));
}

/// When date, region, service and secret contain no `_`, the cache name
/// determines them.
pub proof fn lemma_cache_key_injective(d: Seq<char>, r: Seq<char>, s: Seq<char>, k: Seq<char>, d2: Seq<char>, r2: Seq<char>, s2: Seq<char>, k2: Seq<char>)
    requires
        underscores(d) == 0,
        underscores(r) == 0,
        underscores(s) == 0,
        underscores(k) == 0,
        cache_key(d, r, s, k) == cache_key(d2, r2, s2, k2),
    ensures
        d == d2 && r == r2 && s == s2 && k == k2,
{
    let u = seq!['_'];
    let w = "AWS4"@;
    reveal_strlit("AWS4");
    assert(w.len() == 4);
    lemma_prefix_literal_no_underscore();
    lemma_underscores_concat(w, k);
    lemma_underscores_concat(w, k2);
    lemma_underscores_concat(s + u, w + k);
    lemma_underscores_concat(s, u);
    lemma_underscores_concat(s2 + u, w + k2);
    lemma_underscores_concat(s2, u);
    lemma_underscores_concat(r + u, s + u + (w + k));
    lemma_underscores_concat(r, u);
    lemma_underscores_concat(r2 + u, s2 + u + (w + k2));
    lemma_underscores_concat(r2, u);
    lemma_underscores_concat(d + u, r + u + (s + u + (w + k)));
    lemma_underscores_concat(d, u);
    lemma_underscores_concat(d2 + u, r2 + u + (s2 + u + (w + k2)));
    lemma_underscores_concat(d2, u);
    assert(underscores(u) == 1) by {
        reveal_with_fuel(underscores, 2);
        assert(u.drop_last() =~= Seq::<char>::empty());
    }
    let key1 = cache_key(d, r, s, k);
    assert(key1 =~= d + u + (r + u + (s + u + (w + k))));
    assert(cache_key(d2, r2, s2, k2) =~= d2 + u + (r2 + u + (s2 + u + (w + k2))));
    assert(underscores(d2) == 0 && underscores(r2) == 0 && underscores(s2) == 0 && underscores(k2) == 0);
    assert(d + u + (r + u + (s + u + (w + k))) =~= d + seq!['_'] + (r + u + (s + u + (w + k))));
    lemma_split_at_underscore(d, r + u + (s + u + (w + k)), d2, r2 + u + (s2 + u + (w + k2)));
    lemma_split_at_underscore(r, s + u + (w + k), r2, s2 + u + (w + k2));
    lemma_split_at_underscore(s, w + k, s2, w + k2);
    assert(k =~= (w + k).subrange(4, (w + k).len() as int));
    assert(k2 =~= (w + k2).subrange(4, (w + k2).len() as int));
}

proof fn lemma_prefix_literal_no_underscore()
    ensures
        underscores("AWS4"@) == 0,
{
    reveal_strlit("AWS4");
    reveal_with_fuel(underscores, 5);
    let w = "AWS4"@;
    assert(w.len() == 4);
    assert(w.drop_last().drop_last().drop_last().drop_last() =~= Seq::<char>::empty());
}

/// In a cache whose entries are all valid, the entry found under the cache
/// name of underscore-free inputs holds the key derived from those inputs.
pub proof fn lemma_cached_key_is_derived(c: Seq<(Seq<char>, Seq<u8>)>, d: Seq<char>, r: Seq<char>, s: Seq<char>, k: Seq<char>)
    requires
        forall|i: int| 0 <= i < c.len() ==> cache_entry_valid(#[trigger] c[i]),
        underscores(d) == 0,
        underscores(r) == 0,
        underscores(s) == 0,
        underscores(k) == 0,
    ensures
        cache_lookup(c, cache_key(d, r, s, k)) matches Some(v) ==> v == signing_key(d, r, s, k),
    decreases c.len(),
{
    if c.len() > 0 {
        if c[0].0 == cache_key(d, r, s, k) {
            assert(cache_entry_valid(c[0]));
            let (d2, r2, s2, k2) = choose|d2: Seq<char>, r2: Seq<char>, s2: Seq<char>, k2: Seq<char>|
                c[0].0 == #[trigger] cache_key(d2, r2, s2, k2) && c[0].1 == signing_key(d2, r2, s2, k2);
            lemma_cache_key_injective(d, r, s, k, d2, r2, s2, k2);
        } else {
            let t = c.subrange(1, c.len() as int);
            assert forall|i: int| 0 <= i < t.len() implies cache_entry_valid(#[trigger] t[i]) by {
                assert(t[i] == c[i + 1]);
            }
            lemma_cached_key_is_derived(t, d, r, s, k);
        }
    }
}

} // verus!
