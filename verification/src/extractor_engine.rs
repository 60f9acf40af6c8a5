//! The data extractor engine: it captures the API requests and responses of
//! a login session that the loaded configuration's rules refer to, and then
//! evaluates those rules into user information, request headers and a
//! cookie.

use vstd::prelude::*;
use std::sync::Arc;
use crate::chars::{chars_of, string_of, chars_eq, contains_seq, contains_chars, has_prefix, str_contains,
    starts_with_lit, trim_prefix_all, trim_suffix_char_all, trim_prefix_all_exec, trim_suffix_char_all_exec,
    split_char, split_char_exec, find_from, push_chars, push_str};
use crate::json::{JsonValue, JsonTree, JsonNumber, NumTree, json_text, num_text, to_json_string, members_lookup,
    member_trees, trees, lemma_trees_index, lemma_member_trees_index, empty_object, obj_set, members_insert, jstr};
use crate::numfmt::{parse_usize, spec_parse_usize};
use crate::signature_v4::{pairs_view, pairs_lookup, pairs_set, get_pair, set_pair, copy_pairs};
use crate::extractor_config::{RuleParser, Rule, RuleModel, spec_parse_api_rule, api_rule_content};
use crate::crypto::{to_lowercase, spec_to_lowercase};
use crate::model::DatabaseManager;
use crate::browser::{BrowserAuthResult, BrowserAuthStep};

verus! {

// ---------------------------------------------------------------------------
// Captured data
// ---------------------------------------------------------------------------

/// What was captured of one API call.
pub struct ApiCaptureData {
    pub url: String,
    pub request_headers: Vec<(String, String)>,
    pub response_body: Option<JsonValue>,
}

/// The outcome of an extraction.
pub struct ExtractResult {
    pub success: bool,
    pub user_info: Vec<(String, String)>,
    pub request_headers: Vec<(String, String)>,
    pub local_storage: Vec<LocalStorageItem>,
    pub cookie: String,
    pub message: String,
}

/// One local storage entry.
pub struct LocalStorageItem {
    pub key: String,
    pub value: String,
}

/// The configuration of a platform's extraction.
pub struct ExtractorConfig {
    pub platform_id: String,
    pub platform_name: String,
    pub login_url: String,
    /// `url_match` or `api_match`.
    pub login_success_mode: String,
    pub login_success_pattern: String,
    pub login_success_api_rule: Option<String>,
    pub login_success_api_operator: Option<String>,
    pub login_success_api_value: Option<String>,
    pub redirect_url: Option<String>,
    pub extract_rules: JsonValue,
}

/// The keys of a list of entries.
pub open spec fn entry_keys<X>(v: Seq<(String, X)>) -> Seq<Seq<char>> {
    v.map_values(|e: (String, X)| e.0@)
}

/// Whether no key occurs twice.
pub open spec fn keys_distinct(k: Seq<Seq<char>>) -> bool {
    forall|i: int, j: int| 0 <= i < j < k.len() ==> #[trigger] k[i] != #[trigger] k[j]
}

/// Index of the first key equal to `k`, or the length when none is.
pub open spec fn key_index(ks: Seq<Seq<char>>, k: Seq<char>) -> int
    decreases ks.len(),
{
    if ks.len() == 0 {
        0
    } else if ks[0] == k {
        0
    } else {
        1 + key_index(ks.subrange(1, ks.len() as int), k)
    }
}

/// Index of the first entry with key `k`, or the length when none has it.
pub open spec fn entry_index<X>(v: Seq<(String, X)>, k: Seq<char>) -> int {
    key_index(entry_keys(v), k)
}

/// The keys of a keyed list of models.
pub open spec fn view_keys<V>(m: Seq<(Seq<char>, V)>) -> Seq<Seq<char>> {
    m.map_values(|e: (Seq<char>, V)| e.0)
}

/// The keyed list after setting `k` to `x`: the entry with that key gets the
/// new value, or the entry is appended when the key is new (map insertion).
pub open spec fn vset<V>(m: Seq<(Seq<char>, V)>, k: Seq<char>, x: V) -> Seq<(Seq<char>, V)> {
    let i = key_index(view_keys(m), k);
    if i < m.len() { m.update(i, (k, x)) } else { m.push((k, x)) }
}

/// The value of the entry with key `k`.
pub open spec fn vlookup<V>(m: Seq<(Seq<char>, V)>, k: Seq<char>) -> Option<V> {
    let i = key_index(view_keys(m), k);
    if i < m.len() { Some(m[i].1) } else { None }
}

/// The model of captured header maps: each URL with its headers.
pub open spec fn headers_view(v: Seq<(String, Vec<(String, String)>)>) -> Seq<(Seq<char>, Seq<(Seq<char>, Seq<char>)>)> {
    v.map_values(|e: (String, Vec<(String, String)>)| (e.0@, pairs_view(e.1@)))
}

/// The model of a captured call: its URL, request headers and body.
pub open spec fn capture_view(d: ApiCaptureData) -> (Seq<char>, Seq<(Seq<char>, Seq<char>)>, Option<JsonTree>) {
    (d.url@, pairs_view(d.request_headers@), match d.response_body { Some(b) => Some(b@), None => None })
}

/// The model of captured calls: each URL with its call.
pub open spec fn api_view(v: Seq<(String, ApiCaptureData)>) -> Seq<(Seq<char>, (Seq<char>, Seq<(Seq<char>, Seq<char>)>, Option<JsonTree>))> {
    v.map_values(|e: (String, ApiCaptureData)| (e.0@, capture_view(e.1)))
}

proof fn lemma_key_index(ks: Seq<Seq<char>>, k: Seq<char>)
    ensures
        0 <= key_index(ks, k) <= ks.len(),
        key_index(ks, k) < ks.len() ==> ks[key_index(ks, k)] == k,
        forall|j: int| 0 <= j < key_index(ks, k) ==> #[trigger] ks[j] != k,
    decreases ks.len(),
{
    if ks.len() > 0 && ks[0] != k {
        let r = ks.subrange(1, ks.len() as int);
        lemma_key_index(r, k);
        assert forall|j: int| 0 <= j < key_index(ks, k) implies #[trigger] ks[j] != k by {
            if j > 0 {
                assert(ks[j] == r[j - 1]);
            }
        }
    }
}

/// Index of the first entry with key `k`.
fn find_entry<X>(v: &Vec<(String, X)>, k: &str) -> (r: usize)
    ensures
        r == entry_index(v@, k@),
{
    let ghost ks = entry_keys(v@);
    let kc = chars_of(k);
    assert(ks.subrange(0, ks.len() as int) == ks);
    let mut i: usize = 0;
    while i < v.len()
        invariant
            i <= v.len(),
            kc@ == k@,
            ks == entry_keys(v@),
            ks.len() == v@.len(),
            key_index(ks, k@) == i + key_index(ks.subrange(i as int, ks.len() as int), k@),
        decreases v.len() - i,
    {
        proof {
            let t = ks.subrange(i as int, ks.len() as int);
            assert(t[0] == v@[i as int].0@);
            assert(t.subrange(1, t.len() as int) == ks.subrange(i + 1, ks.len() as int));
        }
        let c = chars_of(v[i].0.as_str());
        if chars_eq(c.as_slice(), kc.as_slice()) {
            return i;
        }
        i = i + 1;
    }
    i
}

/// Setting keys keeps them distinct.
/// What is captured under a URL is what a later look-up of that URL
/// gives, and the captures under other URLs are unchanged; the URLs stay
/// distinct.
pub proof fn law_capture_read_back<V>(m: Seq<(Seq<char>, V)>, k: Seq<char>, x: V)
    requires
        keys_distinct(view_keys(m)),
    ensures
        keys_distinct(view_keys(vset(m, k, x))),
        vlookup(vset(m, k, x), k) == Some(x),
        forall|o: Seq<char>| o != k ==> vlookup(#[trigger] vset(m, k, x), o) == vlookup(m, o),
{
    lemma_vset_distinct(m, k, x);
}

proof fn lemma_vset_distinct<V>(m: Seq<(Seq<char>, V)>, k: Seq<char>, x: V)
    requires
        keys_distinct(view_keys(m)),
    ensures
        keys_distinct(view_keys(vset(m, k, x))),
        vlookup(vset(m, k, x), k) == Some(x),
        forall|o: Seq<char>| o != k ==> vlookup(#[trigger] vset(m, k, x), o) == vlookup(m, o),
{
    let ko = view_keys(m);
    lemma_key_index(ko, k);
    let n = vset(m, k, x);
    let kn = view_keys(n);
    let i = key_index(ko, k);
    if i < m.len() {
        assert(kn == ko);
    } else {
        assert(kn == ko.push(k));
    }
    lemma_key_index(kn, k);
    assert forall|o: Seq<char>| o != k implies vlookup(#[trigger] vset(m, k, x), o) == vlookup(m, o) by {
        lemma_key_index(ko, o);
        lemma_key_index(kn, o);
        let a = key_index(ko, o);
        let b = key_index(kn, o);
        if a < ko.len() {
            if b < a { assert(kn[b] == ko[b]); }
            if a < b { assert(kn[a] == ko[a]); }
        } else {
            if b < ko.len() { assert(kn[b] == ko[b]); }
        }
    }
    if i < m.len() {
        let j = key_index(kn, k);
        if j < i { assert(kn[j] == ko[j]); }
        if i < j { assert(kn[i] == k); }
        assert(j == i);
        assert(n[i] == (k, x));
    } else {
        let j = key_index(kn, k);
        if j < ko.len() { assert(kn[j] == ko[j]); assert(ko[j] != k); }
        assert(kn[ko.len() as int] == k);
        assert(j == ko.len());
        assert(n[j] == (k, x));
    }
}

/// Sets key `k` to `x` in a list of entries.
fn set_entry<X>(v: &mut Vec<(String, X)>, k: String, x: X)
    ensures
        ({
            let i = entry_index(old(v)@, k@);
            &&& 0 <= i <= old(v)@.len()
            &&& final(v)@ == if i < old(v)@.len() { old(v)@.update(i, (k, x)) } else { old(v)@.push((k, x)) }
        }),
{
    let i = find_entry(v, k.as_str());
    proof { lemma_key_index(entry_keys(v@), k@); }
    if i < v.len() {
        v.set(i, (k, x));
    } else {
        v.push((k, x));
    }
}

impl ApiCaptureData {
    /// A copy of the captured data.
    pub fn copy(&self) -> (r: Self)
        ensures
            r.url == self.url,
            pairs_view(r.request_headers@) == pairs_view(self.request_headers@),
            match self.response_body {
                Some(b) => r.response_body matches Some(rb) && rb@ == b@,
                None => r.response_body is None,
            },
    {
        ApiCaptureData {
            url: self.url.clone(),
            request_headers: copy_pairs(&self.request_headers),
            response_body: match &self.response_body {
                Some(b) => Some(crate::json::copy_json(b)),
                None => None,
            },
        }
    }
}

// ---------------------------------------------------------------------------
// Rule evaluation
// ---------------------------------------------------------------------------

/// The API path of an API rule: the body's text before its first `:`.
pub open spec fn spec_extract_api_path(rule: Seq<char>) -> Option<Seq<char>> {
    if has_prefix(rule, "${api:"@) {
        let content = api_rule_content(rule);
        if exists|i: int| 0 <= i < content.len() && content[i] == ':' {
            let p = choose|i: int| 0 <= i < content.len() && content[i] == ':'
                && forall|j: int| 0 <= j < i ==> content[j] != ':';
            Some(content.subrange(0, p))
        } else {
            None
        }
    } else {
        None
    }
}

/// The API path an API rule refers to.
pub fn extract_api_path(rule: &str) -> (r: Option<String>)
    ensures
        match r {
            Some(p) => spec_extract_api_path(rule@) == Some(p@),
            None => spec_extract_api_path(rule@) is None,
        },
{
    let v = chars_of(rule);
    if !starts_with_lit(v.as_slice(), "${api:") {
        return None;
    }
    let pre = chars_of("${api:");
    let a = trim_prefix_all_exec(v.as_slice(), pre.as_slice());
    let content = trim_suffix_char_all_exec(a.as_slice(), '}');
    let mut i: usize = 0;
    while i < content.len()
        invariant
            i <= content.len(),
            content@ == api_rule_content(rule@),
            has_prefix(rule@, "${api:"@),
            forall|j: int| 0 <= j < i ==> content@[j] != ':',
        decreases content.len() - i,
    {
        if content[i] == ':' {
            let ghost c = content@;
            assert(forall|j: int| 0 <= j < i ==> c[j] != ':');
            proof {
                let p = choose|q: int| 0 <= q < c.len() && c[q] == ':' && forall|j: int| 0 <= j < q ==> c[j] != ':';
                assert(0 <= p < c.len() && c[p] == ':' && forall|j: int| 0 <= j < p ==> c[j] != ':');
                if p < i { assert(c[p] != ':'); }
                if p > i { assert(c[i as int] != ':'); }
                assert(p == i);
                assert(spec_extract_api_path(rule@) == Some(c.subrange(0, i as int)));
            }
            let mut out: Vec<char> = Vec::new();
            let mut j: usize = 0;
            while j < i
                invariant
                    j <= i < content.len(),
                    out@ == content@.subrange(0, j as int),
                decreases i - j,
            {
                out.push(content[j]);
                j = j + 1;
                assert(out@ == content@.subrange(0, j as int));
            }
            return Some(string_of(out.as_slice()));
        }
        i = i + 1;
    }
    None
}

/// The value at the end of a `:` separated path into a JSON value: object
/// members by name, array elements by decimal index; none when a step does
/// not apply.
pub open spec fn json_walk(cur: JsonTree, parts: Seq<Seq<char>>) -> Option<JsonTree>
    decreases parts.len(),
{
    if parts.len() == 0 {
        Some(cur)
    } else {
        let p = parts[0];
        let next = match cur {
            JsonTree::Object(m) => members_lookup(m, p),
            JsonTree::Array(a) => match spec_parse_usize(p) {
                Some(i) => if i < a.len() { Some(a[i as int]) } else { None },
                None => None,
            },
            _ => None,
        };
        match next {
            Some(n) => json_walk(n, parts.subrange(1, parts.len() as int)),
            None => None,
        }
    }
}

proof fn lemma_walk_concat(t: JsonTree, s1: Seq<Seq<char>>, s2: Seq<Seq<char>>)
    ensures
        json_walk(t, s1 + s2) == match json_walk(t, s1) {
            Some(u) => json_walk(u, s2),
            None => None,
        },
    decreases s1.len(),
{
    if s1.len() == 0 {
        assert(s1 + s2 =~= s2);
    } else {
        let s = s1 + s2;
        assert(s[0] == s1[0]);
        assert(s.subrange(1, s.len() as int) =~= s1.subrange(1, s1.len() as int) + s2);
        let rest = s1.subrange(1, s1.len() as int);
        match t {
            JsonTree::Object(m) => {
                match members_lookup(m, s1[0]) {
                    Some(n) => lemma_walk_concat(n, rest, s2),
                    None => {},
                }
            },
            JsonTree::Array(arr) => {
                match spec_parse_usize(s1[0]) {
                    Some(k) => {
                        if k < arr.len() {
                            lemma_walk_concat(arr[k as int], rest, s2);
                        }
                    },
                    None => {},
                }
            },
            _ => {},
        }
    }
}

/// Following a path `p`, then `:`, then `q` reads at `q` the value that `p`
/// leads to; a path that leads nowhere reads the empty text.
pub proof fn law_json_path_steps(json: JsonTree, p: Seq<char>, q: Seq<char>)
    ensures
        spec_extract_json_path(json, p + seq![':'] + q) == match json_walk(json, split_char(p, ':')) {
            Some(u) => spec_extract_json_path(u, q),
            None => Seq::empty(),
        },
{
    crate::chars::lemma_split_join(p, q, ':', Seq::empty());
    lemma_walk_concat(json, split_char(p, ':'), split_char(q, ':'));
}

/// A decimal index `i` into an array reads the array's element at `i`
/// (counted from zero), when the array has one there.
pub proof fn law_json_path_index(a: Seq<JsonTree>, i: nat)
    requires
        i < a.len(),
        i <= usize::MAX,
    ensures
        spec_extract_json_path(JsonTree::Array(a), crate::numfmt::dec(i)) == leaf_text(a[i as int]),
{
    let d = crate::numfmt::dec(i);
    crate::numfmt::lemma_parse_usize_dec(i);
    crate::numfmt::lemma_dec_digits(i);
    assert forall|k: int| 0 <= k < d.len() implies d[k] != ':' by {
        assert(crate::numfmt::is_digit(d[k]));
    }
    crate::chars::lemma_split_without_separator(d, ':', Seq::empty());
    assert(Seq::<char>::empty() + d =~= d);
    let parts = split_char(d, ':');
    assert(parts == seq![d]);
    assert(parts.subrange(1, parts.len() as int) =~= Seq::<Seq<char>>::empty());
    assert(parts[0] == d);
    assert(json_walk(a[i as int], parts.subrange(1, parts.len() as int)) == Some(a[i as int]));
    assert(json_walk(JsonTree::Array(a), parts) == Some(a[i as int]));
}

/// Following a path to an array and then a decimal index into it reads the
/// array's element at that index (counted from zero).
pub proof fn law_json_path_array_element(json: JsonTree, p: Seq<char>, a: Seq<JsonTree>, i: nat)
    requires
        json_walk(json, split_char(p, ':')) == Some(JsonTree::Array(a)),
        i < a.len(),
        i <= usize::MAX,
    ensures
        spec_extract_json_path(json, p + seq![':'] + crate::numfmt::dec(i)) == leaf_text(a[i as int]),
{
    law_json_path_steps(json, p, crate::numfmt::dec(i));
    law_json_path_index(a, i);
}

/// The text of a JSON leaf: a string's text, a number's or a boolean's
/// rendering, the compact text of an array or an object, nothing for null.
pub open spec fn leaf_text(t: JsonTree) -> Seq<char> {
    match t {
        JsonTree::Str(s) => s,
        JsonTree::Number(n) => num_text(n),
        JsonTree::Bool(b) => if b { "true"@ } else { "false"@ },
        JsonTree::Array(_) => json_text(t),
        JsonTree::Object(_) => json_text(t),
        JsonTree::Null => Seq::empty(),
    }
}

/// The text found at `path` in `json`, or the empty text.
pub open spec fn spec_extract_json_path(json: JsonTree, path: Seq<char>) -> Seq<char> {
    match json_walk(json, split_char(path, ':')) {
        Some(t) => leaf_text(t),
        None => Seq::empty(),
    }
}

/// The text of a JSON leaf.
fn leaf_string(v: &JsonValue) -> (r: String)
    ensures
        r@ == leaf_text(v@),
{
    match v {
        JsonValue::Str(s) => s.clone(),
        JsonValue::Number(n) => crate::json::number_text(n),
        JsonValue::Bool(b) => if *b { String::from_str("true") } else { String::from_str("false") },
        JsonValue::Array(_) => to_json_string(v),
        JsonValue::Object(_) => to_json_string(v),
        JsonValue::Null => String::new(),
    }
}

/// Extracts the text at `path` (`:` separated) from `json`.
pub fn extract_json_path(json: &JsonValue, path: &str) -> (r: String)
    ensures
        r@ == spec_extract_json_path(json@, path@),
{
    let pc = chars_of(path);
    let parts = split_char_exec(pc.as_slice(), ':');
    let ghost pv = parts@.map_values(|x: Vec<char>| x@);
    assert(pv == split_char(path@, ':'));
    let mut cur: &JsonValue = json;
    let mut i: usize = 0;
    assert(pv.subrange(0, pv.len() as int) == pv);
    while i < parts.len()
        invariant
            i <= parts.len(),
            pv == parts@.map_values(|x: Vec<char>| x@),
            pv == split_char(path@, ':'),
            json_walk(json@, pv) == json_walk(cur@, pv.subrange(i as int, pv.len() as int)),
        decreases parts.len() - i,
    {
        let part = string_of(parts[i].as_slice());
        let ghost rest = pv.subrange(i as int, pv.len() as int);
        assert(rest[0] == part@);
        assert(rest.subrange(1, rest.len() as int) == pv.subrange(i + 1, pv.len() as int));
        let next: Option<&JsonValue> = match cur {
            JsonValue::Object(_) => cur.get(part.as_str()),
            JsonValue::Array(a) => {
                proof { lemma_trees_index(a@); }
                match parse_usize(part.as_str()) {
                    Some(k) => if k < a.len() { Some(&a[k]) } else { None },
                    None => None,
                }
            },
            _ => None,
        };
        match next {
            Some(n) => {
                assert(json_walk(cur@, rest) == json_walk(n@, rest.subrange(1, rest.len() as int)));
                cur = n;
            },
            None => {
                assert(json_walk(cur@, rest) is None);
                return String::new();
            },
        }
        i = i + 1;
    }
    leaf_string(cur)
}

/// The value of the first pair with key `k`, or the empty text.
pub open spec fn lookup_or_empty(p: Seq<(Seq<char>, Seq<char>)>, k: Seq<char>) -> Seq<char> {
    match pairs_lookup(p, k) {
        Some(v) => v,
        None => Seq::empty(),
    }
}

/// The value the first captured call whose URL contains `path` gives: its
/// request header `field` for a request-headers rule; the text at `field`
/// of its response body for a response-body rule (calls without a body are
/// passed over); other rules pass over every call.
pub open spec fn api_lookup(api: Seq<(Seq<char>, (Seq<char>, Seq<(Seq<char>, Seq<char>)>, Option<JsonTree>))>,
    path: Seq<char>, rt: Seq<char>, et: Seq<char>, field: Seq<char>) -> Option<Seq<char>>
    decreases api.len(),
{
    if api.len() == 0 {
        None
    } else {
        let d = api[0].1;
        let rest = api_lookup(api.subrange(1, api.len() as int), path, rt, et, field);
        if contains_seq(api[0].0, path) {
            if rt == "request"@ && et == "headers"@ {
                Some(lookup_or_empty(d.1, field))
            } else if rt == "response"@ && et == "body"@ && d.2 is Some {
                Some(spec_extract_json_path(d.2->Some_0, field))
            } else {
                rest
            }
        } else {
            rest
        }
    }
}

/// The value the first captured header map whose `url` header contains
/// `path` gives: its header `field`, or the empty text.
pub open spec fn header_lookup(hs: Seq<(Seq<char>, Seq<(Seq<char>, Seq<char>)>)>, path: Seq<char>, field: Seq<char>) -> Option<Seq<char>>
    decreases hs.len(),
{
    if hs.len() == 0 {
        None
    } else {
        let h = hs[0].1;
        let rest = header_lookup(hs.subrange(1, hs.len() as int), path, field);
        match pairs_lookup(h, "url"@) {
            Some(u) => if contains_seq(u, path) { Some(lookup_or_empty(h, field)) } else { rest },
            None => rest,
        }
    }
}

/// The value of a rule on captured data: an API rule with fewer than three
/// parts gives nothing; otherwise the captured calls decide, then the
/// captured header maps, and when neither has the API the rule stands for
/// itself. A local storage rule is written back in its canonical form; any
/// other rule is a fixed value.
pub open spec fn spec_engine_rule(rule: Seq<char>,
    api: Seq<(Seq<char>, (Seq<char>, Seq<(Seq<char>, Seq<char>)>, Option<JsonTree>))>,
    hs: Seq<(Seq<char>, Seq<(Seq<char>, Seq<char>)>)>) -> Seq<char> {
    if has_prefix(rule, "${api:"@) {
        match spec_parse_api_rule(rule) {
            RuleModel::Api(path, rt, et, field) => match api_lookup(api, path, rt, et, field) {
                Some(v) => v,
                None => match header_lookup(hs, path, field) {
                    Some(v) => v,
                    None => rule,
                },
            },
            _ => Seq::empty(),
        }
    } else if has_prefix(rule, "${localStorage:"@) {
        "${localStorage:"@ + trim_suffix_char_all(trim_prefix_all(rule, "${localStorage:"@), '}') + "}"@
    } else {
        rule
    }
}

fn lit_is(s: &str, lit: &str) -> (r: bool)
    ensures
        r == (s@ == lit@),
{
    let a = chars_of(s);
    let b = chars_of(lit);
    chars_eq(a.as_slice(), b.as_slice())
}

/// The value the captured calls give for an API rule's parts.
fn api_lookup_exec(api: &Vec<(String, ApiCaptureData)>, path: &str, rt: &str, et: &str, field: &str) -> (r: Option<String>)
    ensures
        match r {
            Some(v) => api_lookup(api_view(api@), path@, rt@, et@, field@) == Some(v@),
            None => api_lookup(api_view(api@), path@, rt@, et@, field@) is None,
        },
{
    let ghost av = api_view(api@);
    let req_headers = lit_is(rt, "request") && lit_is(et, "headers");
    let resp_body = lit_is(rt, "response") && lit_is(et, "body");
    let mut i: usize = 0;
    assert(av.subrange(0, av.len() as int) == av);
    while i < api.len()
        invariant
            i <= api.len(),
            av == api_view(api@),
            av.len() == api@.len(),
            req_headers == (rt@ == "request"@ && et@ == "headers"@),
            resp_body == (rt@ == "response"@ && et@ == "body"@),
            api_lookup(av, path@, rt@, et@, field@) == api_lookup(av.subrange(i as int, av.len() as int), path@, rt@, et@, field@),
        decreases api.len() - i,
    {
        proof {
            let t = av.subrange(i as int, av.len() as int);
            assert(t[0] == (api@[i as int].0@, capture_view(api@[i as int].1)));
            assert(t.subrange(1, t.len() as int) == av.subrange(i + 1, av.len() as int));
        }
        if str_contains(api[i].0.as_str(), path) {
            let d = &api[i].1;
            if req_headers {
                return match get_pair(&d.request_headers, field) {
                    Some(v) => Some(v.clone()),
                    None => Some(String::new()),
                };
            } else if resp_body {
                match &d.response_body {
                    Some(b) => { return Some(extract_json_path(b, field)); },
                    None => {},
                }
            }
        }
        i = i + 1;
    }
    None
}

/// The value the captured header maps give for an API rule's parts.
fn header_lookup_exec(hs: &Vec<(String, Vec<(String, String)>)>, path: &str, field: &str) -> (r: Option<String>)
    ensures
        match r {
            Some(v) => header_lookup(headers_view(hs@), path@, field@) == Some(v@),
            None => header_lookup(headers_view(hs@), path@, field@) is None,
        },
{
    let ghost hv = headers_view(hs@);
    let mut i: usize = 0;
    assert(hv.subrange(0, hv.len() as int) == hv);
    while i < hs.len()
        invariant
            i <= hs.len(),
            hv == headers_view(hs@),
            hv.len() == hs@.len(),
            header_lookup(hv, path@, field@) == header_lookup(hv.subrange(i as int, hv.len() as int), path@, field@),
        decreases hs.len() - i,
    {
        proof {
            let t = hv.subrange(i as int, hv.len() as int);
            assert(t[0] == (hs@[i as int].0@, pairs_view(hs@[i as int].1@)));
            assert(t.subrange(1, t.len() as int) == hv.subrange(i + 1, hv.len() as int));
        }
        match get_pair(&hs[i].1, "url") {
            Some(u) => {
                if str_contains(u.as_str(), path) {
                    return match get_pair(&hs[i].1, field) {
                        Some(v) => Some(v.clone()),
                        None => Some(String::new()),
                    };
                }
            },
            None => {},
        }
        i = i + 1;
    }
    None
}

/// Evaluates a rule on captured data.
pub fn evaluate_rule(rule: &str, api_data: &Vec<(String, ApiCaptureData)>,
    request_headers: &Vec<(String, Vec<(String, String)>)>) -> (r: String)
    ensures
        r@ == spec_engine_rule(rule@, api_view(api_data@), headers_view(request_headers@)),
{
    let v = chars_of(rule);
    if starts_with_lit(v.as_slice(), "${api:") {
        match RuleParser::parse_api_rule(rule) {
            Rule::ApiExtract(a) => {
                match api_lookup_exec(api_data, a.api_path.as_str(), a.request_type.as_str(), a.extract_type.as_str(), a.field_path.as_str()) {
                    Some(x) => x,
                    None => match header_lookup_exec(request_headers, a.api_path.as_str(), a.field_path.as_str()) {
                        Some(x) => x,
                        None => String::from_str(rule),
                    },
                }
            },
            _ => String::new(),
        }
    } else if starts_with_lit(v.as_slice(), "${localStorage:") {
        let pre = chars_of("${localStorage:");
        let a = trim_prefix_all_exec(v.as_slice(), pre.as_slice());
        let key = trim_suffix_char_all_exec(a.as_slice(), '}');
        let mut out: Vec<char> = Vec::new();
        push_str(&mut out, "${localStorage:");
        push_chars(&mut out, key.as_slice());
        push_str(&mut out, "}");
        string_of(out.as_slice())
    } else {
        String::from_str(rule)
    }
}

// ---------------------------------------------------------------------------
// The engine
// ---------------------------------------------------------------------------

/// The members of the object rule group `name` (none when it is missing or
/// not an object).
pub open spec fn rule_group(rules: JsonTree, name: Seq<char>) -> Seq<(Seq<char>, JsonTree)> {
    match rules.get(name) {
        Some(JsonTree::Object(m)) => m,
        _ => Seq::empty(),
    }
}

/// Whether the rule value is an API rule whose path `url` contains.
pub open spec fn rule_refers(v: JsonTree, url: Seq<char>) -> bool {
    match v {
        JsonTree::Str(rule) => match spec_extract_api_path(rule) {
            Some(p) => contains_seq(url, p),
            None => false,
        },
        _ => false,
    }
}

/// Whether some rule of the group is an API rule whose path `url` contains.
pub open spec fn group_matches(g: Seq<(Seq<char>, JsonTree)>, url: Seq<char>) -> bool {
    exists|i: int| 0 <= i < g.len() && #[trigger] rule_refers(g[i].1, url)
}

/// The values that the group's string rules give, keyed by the rule's
/// name; empty values are left out.
pub open spec fn rule_values(g: Seq<(Seq<char>, JsonTree)>,
    api: Seq<(Seq<char>, (Seq<char>, Seq<(Seq<char>, Seq<char>)>, Option<JsonTree>))>,
    hs: Seq<(Seq<char>, Seq<(Seq<char>, Seq<char>)>)>) -> Seq<(Seq<char>, Seq<char>)>
    decreases g.len(),
{
    if g.len() == 0 {
        Seq::empty()
    } else {
        let prev = rule_values(g.drop_last(), api, hs);
        match g.last().1 {
            JsonTree::Str(rule) => {
                let v = spec_engine_rule(rule, api, hs);
                if v.len() > 0 { pairs_set(prev, g.last().0, v) } else { prev }
            },
            _ => prev,
        }
    }
}

/// The value of the first header named `cookie` in any letter case.
pub open spec fn first_cookie_in(p: Seq<(Seq<char>, Seq<char>)>) -> Option<Seq<char>>
    decreases p.len(),
{
    if p.len() == 0 {
        None
    } else if spec_to_lowercase(p[0].0) == "cookie"@ {
        Some(p[0].1)
    } else {
        first_cookie_in(p.subrange(1, p.len() as int))
    }
}

/// The first cookie header over all captured header maps, or nothing.
pub open spec fn first_cookie(hs: Seq<(Seq<char>, Seq<(Seq<char>, Seq<char>)>)>) -> Seq<char>
    decreases hs.len(),
{
    if hs.len() == 0 {
        Seq::empty()
    } else {
        match first_cookie_in(hs[0].1) {
            Some(v) => v,
            None => first_cookie(hs.subrange(1, hs.len() as int)),
        }
    }
}

/// The cookie the `cookie` rule gives: with source `from_browser` the first
/// cookie header captured; with source `from_api` the header `header_name`
/// (by default `cookie`) of the header map captured for `api_path`;
/// otherwise nothing.
pub open spec fn spec_cookie(rules: JsonTree, hs: Seq<(Seq<char>, Seq<(Seq<char>, Seq<char>)>)>) -> Seq<char> {
    match rules.get("cookie"@) {
        Some(c) => match c.get_str("source"@) {
            Some(src) => if src == "from_browser"@ {
                first_cookie(hs)
            } else if src == "from_api"@ {
                match c.get_str("api_path"@) {
                    Some(path) => match vlookup(hs, path) {
                        Some(h) => lookup_or_empty(h, match c.get_str("header_name"@) {
                            Some(n) => n,
                            None => "cookie"@,
                        }),
                        None => Seq::empty(),
                    },
                    None => Seq::empty(),
                }
            } else {
                Seq::empty()
            },
            None => Seq::empty(),
        },
        None => Seq::empty(),
    }
}

/// The engine: the loaded configuration and what was captured.
pub struct DataExtractorEngine {
    db_manager: Arc<DatabaseManager>,
    current_config: Option<ExtractorConfig>,
    captured_api_data: Vec<(String, ApiCaptureData)>,
    captured_request_headers: Vec<(String, Vec<(String, String)>)>,
}

/// The keys of captured lists are their models' keys.
proof fn lemma_view_keys(api: Seq<(String, ApiCaptureData)>, hs: Seq<(String, Vec<(String, String)>)>)
    ensures
        view_keys(api_view(api)) == entry_keys(api),
        view_keys(headers_view(hs)) == entry_keys(hs),
{
    assert(view_keys(api_view(api)) =~= entry_keys(api));
    assert(view_keys(headers_view(hs)) =~= entry_keys(hs));
}

impl DataExtractorEngine {
    /// Each URL is captured at most once.
    #[verifier::type_invariant]
    spec fn urls_distinct(self) -> bool {
        &&& keys_distinct(entry_keys(self.captured_api_data@))
        &&& keys_distinct(entry_keys(self.captured_request_headers@))
    }

    /// The loaded configuration.
    pub closed spec fn config(self) -> Option<ExtractorConfig> {
        self.current_config
    }

    /// The captured calls, each URL with its call.
    pub closed spec fn api_data(self) -> Seq<(Seq<char>, (Seq<char>, Seq<(Seq<char>, Seq<char>)>, Option<JsonTree>))> {
        api_view(self.captured_api_data@)
    }

    /// The captured request headers, each URL with its headers.
    pub closed spec fn header_data(self) -> Seq<(Seq<char>, Seq<(Seq<char>, Seq<char>)>)> {
        headers_view(self.captured_request_headers@)
    }

    /// The database the configurations come from.
    pub closed spec fn database(self) -> Arc<DatabaseManager> {
        self.db_manager
    }

    /// An engine with no configuration and nothing captured.
    pub fn new(db_manager: Arc<DatabaseManager>) -> (r: Self)
        ensures
            r.config() is None,
            r.api_data().len() == 0,
            r.header_data().len() == 0,
            r.database() == db_manager,
    {
        DataExtractorEngine {
            db_manager,
            current_config: None,
            captured_api_data: Vec::new(),
            captured_request_headers: Vec::new(),
        }
    }

    /// Loads the configuration that the database holds for `platform_id`
    /// (`found`); without one, fails with `Platform config not found: `
    /// and the id, keeping the current configuration.
    pub fn load_config(&mut self, platform_id: &str, found: Option<ExtractorConfig>) -> (r: Result<(), String>)
        ensures
            final(self).api_data() == old(self).api_data(),
            final(self).header_data() == old(self).header_data(),
            final(self).database() == old(self).database(),
            match found {
                Some(c) => r is Ok && final(self).config() == Some(c),
                None => final(self).config() == old(self).config()
                    && (r matches Err(m) && m@ == "Platform config not found: "@ + platform_id@),
            },
    {
        proof { use_type_invariant(&*self); }
        match found {
            Some(c) => {
                self.current_config = Some(c);
                Ok(())
            },
            None => Err(String::from_str("Platform config not found: ").concat(platform_id)),
        }
    }

    /// The loaded configuration.
    pub fn get_config(&self) -> (r: Option<&ExtractorConfig>)
        ensures
            match self.config() {
                Some(c) => r == Some(&c),
                None => r is None,
            },
    {
        match &self.current_config {
            Some(c) => Some(c),
            None => None,
        }
    }

    /// Whether the group's rules refer to `url`.
    fn refers(&self, group: &str, url: &str) -> (r: bool)
        ensures
            r == match self.config() {
                Some(c) => group_matches(rule_group(c.extract_rules@, group@), url@),
                None => false,
            },
    {
        let config = match &self.current_config {
            Some(c) => c,
            None => { return false; },
        };
        let rules = match config.extract_rules.get(group) {
            Some(x) => x,
            None => { return false; },
        };
        let e = match rules {
            JsonValue::Object(e) => e,
            _ => { return false; },
        };
        let ghost g = member_trees(e@);
        proof { lemma_member_trees_index(e@); }
        assert(g == rule_group(config.extract_rules@, group@));
        let mut i: usize = 0;
        while i < e.len()
            invariant
                i <= e.len(),
                g == member_trees(e@),
                g == rule_group(config.extract_rules@, group@),
                self.config() == Some(*config),
                g.len() == e@.len(),
                forall|j: int| 0 <= j < e@.len() ==> #[trigger] g[j] == (e@[j].0@, e@[j].1@),
                forall|j: int| 0 <= j < i ==> !rule_refers(#[trigger] g[j].1, url@),
            decreases e.len() - i,
        {
            assert(g[i as int] == (e@[i as int].0@, e@[i as int].1@));
            match &e[i].1 {
                JsonValue::Str(rule) => {
                    match extract_api_path(rule.as_str()) {
                        Some(p) => {
                            if str_contains(url, p.as_str()) {
                                assert(rule_refers(g[i as int].1, url@));
                                return true;
                            }
                        },
                        None => {},
                    }
                },
                _ => {},
            }
            i = i + 1;
        }
        false
    }

    /// Captures a request's headers under its URL when a `request_headers`
    /// rule of the configuration refers to the URL.
    pub fn capture_api_request(&mut self, url: &str, headers: &Vec<(String, String)>)
        ensures
            final(self).config() == old(self).config(),
            final(self).api_data() == old(self).api_data(),
            final(self).database() == old(self).database(),
            keys_distinct(view_keys(final(self).header_data())),
            final(self).header_data() == match old(self).config() {
                Some(c) => if group_matches(rule_group(c.extract_rules@, "request_headers"@), url@) {
                    vset(old(self).header_data(), url@, pairs_view(headers@))
                } else {
                    old(self).header_data()
                },
                None => old(self).header_data(),
            },
    {
        proof {
            use_type_invariant(&*self);
            lemma_view_keys(self.captured_api_data@, self.captured_request_headers@);
        }
        if self.refers("request_headers", url) {
            let h = copy_pairs(headers);
            let k = String::from_str(url);
            let ghost old_h = self.captured_request_headers@;
            let ghost hv = headers_view(old_h);
            proof {
                lemma_view_keys(self.captured_api_data@, old_h);
                lemma_vset_distinct(hv, k@, pairs_view(h@));
            }
            let mut tmp: Vec<(String, Vec<(String, String)>)> = Vec::new();
            std::mem::swap(&mut tmp, &mut self.captured_request_headers);
            set_entry(&mut tmp, k, h);
            proof {
                lemma_view_keys(self.captured_api_data@, tmp@);
                assert(headers_view(tmp@) =~= vset(hv, k@, pairs_view(h@)));
            }
            self.captured_request_headers = tmp;
            proof {
                lemma_view_keys(self.captured_api_data@, self.captured_request_headers@);
                assert(headers_view(self.captured_request_headers@) =~= vset(hv, k@, pairs_view(h@)));
            }
        }
    }

    /// Captures a response under its URL, with the request headers captured
    /// for that URL, when a `user_info` rule refers to the URL.
    pub fn capture_api_response(&mut self, url: &str, body: &JsonValue)
        ensures
            final(self).config() == old(self).config(),
            final(self).header_data() == old(self).header_data(),
            final(self).database() == old(self).database(),
            keys_distinct(view_keys(final(self).api_data())),
            final(self).api_data() == match old(self).config() {
                Some(c) => if group_matches(rule_group(c.extract_rules@, "user_info"@), url@) {
                    vset(old(self).api_data(), url@, (url@, match vlookup(old(self).header_data(), url@) {
                        Some(h) => h,
                        None => Seq::empty(),
                    }, Some(body@)))
                } else {
                    old(self).api_data()
                },
                None => old(self).api_data(),
            },
    {
        proof {
            use_type_invariant(&*self);
            lemma_view_keys(self.captured_api_data@, self.captured_request_headers@);
        }
        if self.refers("user_info", url) {
            let ghost hv = headers_view(self.captured_request_headers@);
            let i = find_entry(&self.captured_request_headers, url);
            proof {
                lemma_key_index(entry_keys(self.captured_request_headers@), url@);
                lemma_view_keys(self.captured_api_data@, self.captured_request_headers@);
            }
            let hdrs = if i < self.captured_request_headers.len() {
                copy_pairs(&self.captured_request_headers[i].1)
            } else {
                Vec::new()
            };
            assert(pairs_view(hdrs@) == match vlookup(hv, url@) { Some(h) => h, None => Seq::empty() });
            let data = ApiCaptureData {
                url: String::from_str(url),
                request_headers: hdrs,
                response_body: Some(crate::json::copy_json(body)),
            };
            let k = String::from_str(url);
            let ghost old_a = self.captured_api_data@;
            let ghost av = api_view(old_a);
            proof {
                lemma_vset_distinct(av, k@, capture_view(data));
            }
            let mut tmp: Vec<(String, ApiCaptureData)> = Vec::new();
            std::mem::swap(&mut tmp, &mut self.captured_api_data);
            set_entry(&mut tmp, k, data);
            proof {
                lemma_view_keys(tmp@, self.captured_request_headers@);
                assert(api_view(tmp@) =~= vset(av, k@, capture_view(data)));
            }
            self.captured_api_data = tmp;
            proof {
                lemma_view_keys(self.captured_api_data@, self.captured_request_headers@);
                assert(api_view(self.captured_api_data@) =~= vset(av, k@, capture_view(data)));
            }
        }
    }

    /// Forgets everything captured.
    pub fn clear(&mut self)
        ensures
            final(self).config() == old(self).config(),
            final(self).database() == old(self).database(),
            final(self).api_data().len() == 0,
            final(self).header_data().len() == 0,
    {
        proof { use_type_invariant(&*self); }
        self.captured_api_data = Vec::new();
        self.captured_request_headers = Vec::new();
    }
}

/// What an extraction finds: the user information and the request headers
/// that the configuration's rule groups give, the cookie that its cookie
/// rule gives, and the message (`Extraction completed` when user
/// information or a cookie was found, else `No data extracted`); without a
/// configuration nothing, with the message `No configuration loaded`.
pub open spec fn extraction(config: Option<ExtractorConfig>,
    api: Seq<(Seq<char>, (Seq<char>, Seq<(Seq<char>, Seq<char>)>, Option<JsonTree>))>,
    hs: Seq<(Seq<char>, Seq<(Seq<char>, Seq<char>)>)>)
    -> (Seq<(Seq<char>, Seq<char>)>, Seq<(Seq<char>, Seq<char>)>, Seq<char>, Seq<char>) {
    match config {
        Some(c) => {
            let rules = c.extract_rules@;
            let ui = rule_values(rule_group(rules, "user_info"@), api, hs);
            let cookie = spec_cookie(rules, hs);
            (ui, rule_values(rule_group(rules, "request_headers"@), api, hs), cookie,
                if ui.len() == 0 && cookie.len() == 0 { "No data extracted"@ } else { "Extraction completed"@ })
        },
        None => (Seq::empty(), Seq::empty(), Seq::empty(), "No configuration loaded"@),
    }
}

/// Whether an extraction succeeded: it found user information or a cookie.
pub open spec fn extraction_success(e: (Seq<(Seq<char>, Seq<char>)>, Seq<(Seq<char>, Seq<char>)>, Seq<char>, Seq<char>)) -> bool {
    e.0.len() > 0 || e.2.len() > 0
}

/// Whether `k` names a rule of the group.
pub open spec fn names_rule(g: Seq<(Seq<char>, JsonTree)>, k: Seq<char>) -> bool {
    exists|j: int| 0 <= j < g.len() && #[trigger] g[j].0 == k
}

proof fn lemma_rule_values_shape(g: Seq<(Seq<char>, JsonTree)>,
    api: Seq<(Seq<char>, (Seq<char>, Seq<(Seq<char>, Seq<char>)>, Option<JsonTree>))>,
    hs: Seq<(Seq<char>, Seq<(Seq<char>, Seq<char>)>)>)
    ensures
        forall|i: int| 0 <= i < rule_values(g, api, hs).len() ==> (#[trigger] rule_values(g, api, hs)[i]).1.len() > 0
            && names_rule(g, rule_values(g, api, hs)[i].0),
    decreases g.len(),
{
    if g.len() > 0 {
        let d = g.drop_last();
        lemma_rule_values_shape(d, api, hs);
        let prev = rule_values(d, api, hs);
        let rv = rule_values(g, api, hs);
        assert forall|i: int| 0 <= i < rv.len() implies (#[trigger] rv[i]).1.len() > 0 && names_rule(g, rv[i].0) by {
            let last = g.len() - 1;
            assert(g[last] == g.last());
            if rv[i] == prev[i] && i < prev.len() {
                let j = choose|j: int| 0 <= j < d.len() && #[trigger] d[j].0 == prev[i].0;
                assert(g[j] == d[j]);
            } else {
                assert(g[last].0 == rv[i].0);
            }
        }
    }
}

/// With a configuration loaded, an extraction succeeds exactly when it
/// found user information or a cookie, and says so in its message; every
/// value it reports is non-empty, and every user information key is the
/// name of a user information rule.
pub proof fn law_extraction(c: ExtractorConfig,
    api: Seq<(Seq<char>, (Seq<char>, Seq<(Seq<char>, Seq<char>)>, Option<JsonTree>))>,
    hs: Seq<(Seq<char>, Seq<(Seq<char>, Seq<char>)>)>)
    ensures
        ({
            let e = extraction(Some(c), api, hs);
            &&& extraction_success(e) == (e.0.len() > 0 || e.2.len() > 0)
            &&& e.3 == (if extraction_success(e) { "Extraction completed"@ } else { "No data extracted"@ })
            &&& forall|i: int| 0 <= i < e.0.len() ==> (#[trigger] e.0[i]).1.len() > 0
                && names_rule(rule_group(c.extract_rules@, "user_info"@), e.0[i].0)
            &&& forall|i: int| 0 <= i < e.1.len() ==> (#[trigger] e.1[i]).1.len() > 0
        }),
{
    lemma_rule_values_shape(rule_group(c.extract_rules@, "user_info"@), api, hs);
    lemma_rule_values_shape(rule_group(c.extract_rules@, "request_headers"@), api, hs);
}

impl DataExtractorEngine {
    /// The values of a rule group.
    fn group_values(&self, rules: &JsonValue, group: &str) -> (r: Vec<(String, String)>)
        ensures
            pairs_view(r@) == rule_values(rule_group(rules@, group@), self.api_data(), self.header_data()),
    {
        let mut out: Vec<(String, String)> = Vec::new();
        let e = match rules.get(group) {
            Some(JsonValue::Object(e)) => e,
            _ => {
                assert(pairs_view(out@) =~= Seq::<(Seq<char>, Seq<char>)>::empty());
                return out;
            },
        };
        let ghost g = member_trees(e@);
        proof { lemma_member_trees_index(e@); }
        assert(g == rule_group(rules@, group@));
        let mut i: usize = 0;
        assert(pairs_view(out@) =~= Seq::<(Seq<char>, Seq<char>)>::empty());
        while i < e.len()
            invariant
                i <= e.len(),
                g == member_trees(e@),
                g.len() == e@.len(),
                forall|j: int| 0 <= j < e@.len() ==> #[trigger] g[j] == (e@[j].0@, e@[j].1@),
                pairs_view(out@) == rule_values(g.subrange(0, i as int), self.api_data(), self.header_data()),
            decreases e.len() - i,
        {
            proof {
                let t = g.subrange(0, i + 1);
                assert(t.drop_last() == g.subrange(0, i as int));
                assert(t.last() == (e@[i as int].0@, e@[i as int].1@));
            }
            match &e[i].1 {
                JsonValue::Str(rule) => {
                    let v = evaluate_rule(rule.as_str(), &self.captured_api_data, &self.captured_request_headers);
                    if !v.as_str().is_empty() {
                        set_pair(&mut out, e[i].0.clone(), v);
                    }
                },
                _ => {},
            }
            i = i + 1;
        }
        assert(g.subrange(0, e.len() as int) == g);
        out
    }

    /// The first captured cookie header.
    fn first_cookie_exec(&self) -> (r: String)
        ensures
            r@ == first_cookie(self.header_data()),
    {
        let hs = &self.captured_request_headers;
        let ghost hv = headers_view(hs@);
        let mut i: usize = 0;
        assert(hv.subrange(0, hv.len() as int) == hv);
        while i < hs.len()
            invariant
                i <= hs.len(),
                hv == headers_view(hs@),
                hv == self.header_data(),
                hv.len() == hs@.len(),
                first_cookie(hv) == first_cookie(hv.subrange(i as int, hv.len() as int)),
            decreases hs.len() - i,
        {
            let ghost p = pairs_view(hs@[i as int].1@);
            proof {
                let t = hv.subrange(i as int, hv.len() as int);
                assert(t[0] == (hs@[i as int].0@, p));
                assert(t.subrange(1, t.len() as int) == hv.subrange(i + 1, hv.len() as int));
            }
            let h = &hs[i].1;
            let mut j: usize = 0;
            assert(p.subrange(0, p.len() as int) == p);
            while j < h.len()
                invariant
                    j <= h.len(),
                    p == pairs_view(h@),
                    p.len() == h@.len(),
                    i < hv.len(),
                    hv == self.header_data(),
                    hv[i as int].1 == p,
                    first_cookie(hv) == first_cookie(hv.subrange(i as int, hv.len() as int)),
                    first_cookie(hv.subrange(i as int, hv.len() as int)) == match first_cookie_in(p) {
                        Some(v) => v,
                        None => first_cookie(hv.subrange(i + 1, hv.len() as int)),
                    },
                    first_cookie_in(p) == first_cookie_in(p.subrange(j as int, p.len() as int)),
                decreases h.len() - j,
            {
                proof {
                    let t = p.subrange(j as int, p.len() as int);
                    assert(t[0] == (h@[j as int].0@, h@[j as int].1@));
                    assert(t.subrange(1, t.len() as int) == p.subrange(j + 1, p.len() as int));
                }
                let l = to_lowercase(h[j].0.as_str());
                if lit_is(l.as_str(), "cookie") {
                    return h[j].1.clone();
                }
                j = j + 1;
            }
            i = i + 1;
        }
        String::new()
    }

    /// The cookie that the cookie rule gives.
    fn cookie_exec(&self, rules: &JsonValue) -> (r: String)
        ensures
            r@ == spec_cookie(rules@, self.header_data()),
    {
        let c = match rules.get("cookie") {
            Some(c) => c,
            None => { return String::new(); },
        };
        let src = match c.get_str("source") {
            Some(s) => s,
            None => { return String::new(); },
        };
        if lit_is(src.as_str(), "from_browser") {
            self.first_cookie_exec()
        } else if lit_is(src.as_str(), "from_api") {
            let path = match c.get_str("api_path") {
                Some(p) => p,
                None => { return String::new(); },
            };
            let i = find_entry(&self.captured_request_headers, path.as_str());
            proof {
                lemma_key_index(entry_keys(self.captured_request_headers@), path@);
                lemma_view_keys(self.captured_api_data@, self.captured_request_headers@);
            }
            if i < self.captured_request_headers.len() {
                let name = match c.get_str("header_name") {
                    Some(n) => n,
                    None => String::from_str("cookie"),
                };
                match get_pair(&self.captured_request_headers[i].1, name.as_str()) {
                    Some(v) => v.clone(),
                    None => String::new(),
                }
            } else {
                String::new()
            }
        } else {
            String::new()
        }
    }

    /// Evaluates the loaded configuration's rules on what was captured;
    /// without a configuration, fails with `No configuration loaded`.
    pub fn extract(&self) -> (r: ExtractResult)
        ensures
            ({
                let e = extraction(self.config(), self.api_data(), self.header_data());
                &&& pairs_view(r.user_info@) == e.0
                &&& pairs_view(r.request_headers@) == e.1
                &&& r.cookie@ == e.2
                &&& r.message@ == e.3
                &&& r.success == extraction_success(e)
                &&& r.local_storage@.len() == 0
            }),
    {
        let config = match &self.current_config {
            Some(c) => c,
            None => {
                let r = ExtractResult {
                    success: false,
                    user_info: Vec::new(),
                    request_headers: Vec::new(),
                    local_storage: Vec::new(),
                    cookie: String::new(),
                    message: String::from_str("No configuration loaded"),
                };
                assert(pairs_view(r.user_info@) =~= Seq::<(Seq<char>, Seq<char>)>::empty());
                assert(pairs_view(r.request_headers@) =~= Seq::<(Seq<char>, Seq<char>)>::empty());
                return r;
            },
        };
        let user_info = self.group_values(&config.extract_rules, "user_info");
        let request_headers = self.group_values(&config.extract_rules, "request_headers");
        let cookie = self.cookie_exec(&config.extract_rules);
        let empty = user_info.len() == 0 && cookie.as_str().is_empty();
        proof {
            assert(pairs_view(user_info@).len() == user_info@.len());
        }
        let message = if empty {
            String::from_str("No data extracted")
        } else {
            String::from_str("Extraction completed")
        };
        ExtractResult {
            success: !empty,
            user_info,
            request_headers,
            local_storage: Vec::new(),
            cookie,
            message,
        }
    }
}

/// The object sent as third party parameters: the request headers as an
/// object of strings, no local data, and the cookie.
pub open spec fn third_param_json(cookie: Seq<char>, headers: Seq<(Seq<char>, Seq<char>)>) -> JsonTree {
    crate::json::object_of(seq![
        ("request_headers"@, crate::json::object_of(headers.map_values(|p: (Seq<char>, Seq<char>)| (p.0, JsonTree::Str(p.1))))),
        ("local_data"@, JsonTree::Array(Seq::empty())),
        ("cookie"@, JsonTree::Str(cookie)),
    ])
}

/// An object of strings built by setting each pair in turn.
fn string_object(p: &Vec<(String, String)>) -> (r: JsonValue)
    ensures
        r@ == crate::json::object_of(pairs_view(p@).map_values(|q: (Seq<char>, Seq<char>)| (q.0, JsonTree::Str(q.1)))),
{
    let ghost all = pairs_view(p@).map_values(|q: (Seq<char>, Seq<char>)| (q.0, JsonTree::Str(q.1)));
    let mut o = empty_object();
    let mut i: usize = 0;
    while i < p.len()
        invariant
            i <= p.len(),
            all == pairs_view(p@).map_values(|q: (Seq<char>, Seq<char>)| (q.0, JsonTree::Str(q.1))),
            o@ == crate::json::object_of(all.subrange(0, i as int)),
        decreases p.len() - i,
    {
        proof {
            let t = all.subrange(0, i + 1);
            assert(t.drop_last() == all.subrange(0, i as int));
            assert(t.last() == (p@[i as int].0@, JsonTree::Str(p@[i as int].1@)));
        }
        obj_set(&mut o, p[i].0.as_str(), jstr(p[i].1.as_str()));
        i = i + 1;
    }
    assert(all.subrange(0, p.len() as int) == all);
    o
}

/// The stored form of local storage items: a JSON array of objects with
/// `key` and `value`.
pub open spec fn local_storage_json(items: Seq<LocalStorageItem>) -> JsonTree {
    JsonTree::Array(items.map_values(|it: LocalStorageItem| crate::json::object_of(seq![
        ("key"@, JsonTree::Str(it.key@)), ("value"@, JsonTree::Str(it.value@))])))
}

/// The JSON value of local storage items.
pub fn local_storage_value(items: &Vec<LocalStorageItem>) -> (r: JsonValue)
    ensures
        r@ == local_storage_json(items@),
{
    let ghost all = local_storage_json(items@)->Array_0;
    let mut out: Vec<JsonValue> = Vec::new();
    let mut i: usize = 0;
    while i < items.len()
        invariant
            i <= items.len(),
            all == local_storage_json(items@)->Array_0,
            trees(out@) == all.subrange(0, i as int),
        decreases items.len() - i,
    {
        let mut o = empty_object();
        obj_set(&mut o, "key", jstr(items[i].key.as_str()));
        obj_set(&mut o, "value", jstr(items[i].value.as_str()));
        proof {
            let s2 = seq![("key"@, JsonTree::Str(items@[i as int].key@)), ("value"@, JsonTree::Str(items@[i as int].value@))];
            let s1 = s2.drop_last();
            assert(s1 == seq![("key"@, JsonTree::Str(items@[i as int].key@))]);
            assert(s1.drop_last() == Seq::<(Seq<char>, JsonTree)>::empty());
            let e0 = Seq::<(Seq<char>, JsonTree)>::empty();
            assert(crate::json::members_insert_all(e0, s1.drop_last()) == e0);
            assert(crate::json::members_insert_all(e0, s1) == members_insert(e0, "key"@, JsonTree::Str(items@[i as int].key@)));
            assert(crate::json::members_insert_all(e0, s2) == members_insert(members_insert(e0, "key"@, JsonTree::Str(items@[i as int].key@)), "value"@, JsonTree::Str(items@[i as int].value@)));
            assert(o@ == all[i as int]);
        }
        let ghost before = out@;
        let ghost ov = o@;
        out.push(o);
        proof {
            assert(out@.drop_last() == before);
            assert(out@.last() == o);
            assert(trees(out@) == trees(before).push(ov));
            assert(all.subrange(0, i + 1) == all.subrange(0, i as int).push(all[i as int]));
        }
        i = i + 1;
    }
    assert(all.subrange(0, items.len() as int) == all);
    JsonValue::Array(out)
}

/// Whether `r` is the authorization result that an extraction `e` with the
/// local storage items `ls` gives on the page `url`: completed when it
/// succeeded (else failed with its message, also kept as the error), the
/// four user fields from the user information, the cookie, the local
/// storage and the third party parameters as JSON texts.
pub open spec fn auth_result_of(e: (Seq<(Seq<char>, Seq<char>)>, Seq<(Seq<char>, Seq<char>)>, Seq<char>, Seq<char>),
    ls: Seq<LocalStorageItem>, url: Seq<char>, r: BrowserAuthResult) -> bool {
    &&& if extraction_success(e) { r.step is Completed && r.error is None } else {
        (r.step matches BrowserAuthStep::Failed(m) && m@ == e.3) && (r.error matches Some(m) && m@ == e.3)
    }
    &&& r.message@ == e.3
    &&& r.nickname@ == lookup_or_empty(e.0, "nickname"@)
    &&& r.avatar_url@ == lookup_or_empty(e.0, "avatar_url"@)
    &&& r.third_id@ == lookup_or_empty(e.0, "third_id"@)
    &&& r.sec_uid@ == lookup_or_empty(e.0, "sec_uid"@)
    &&& r.cookie@ == e.2
    &&& r.local_storage@ == json_text(local_storage_json(ls))
    &&& r.request_headers@ == json_text(third_param_json(e.2, e.1))
    &&& r.current_url@ == url
    &&& !r.need_poll
    &&& r.screenshot is None
}

fn lookup_string(p: &Vec<(String, String)>, k: &str) -> (r: String)
    ensures
        r@ == lookup_or_empty(pairs_view(p@), k@),
{
    match get_pair(p, k) {
        Some(v) => v.clone(),
        None => String::new(),
    }
}

impl DataExtractorEngine {
    /// The authorization result of an extraction on the page `current_url`
    /// (the nickname and avatar arguments are not used: the rules give them).
    pub fn build_auth_result(&self, _nickname: &str, _avatar_url: &str, current_url: &str) -> (r: BrowserAuthResult)
        ensures
            auth_result_of(extraction(self.config(), self.api_data(), self.header_data()), Seq::empty(), current_url@, r),
    {
        let x = self.extract();
        let ghost e = extraction(self.config(), self.api_data(), self.header_data());
        let mut tp = empty_object();
        obj_set(&mut tp, "request_headers", string_object(&x.request_headers));
        obj_set(&mut tp, "local_data", JsonValue::Array(Vec::new()));
        obj_set(&mut tp, "cookie", jstr(x.cookie.as_str()));
        proof {
            let s3 = seq![
                ("request_headers"@, crate::json::object_of(e.1.map_values(|p: (Seq<char>, Seq<char>)| (p.0, JsonTree::Str(p.1))))),
                ("local_data"@, JsonTree::Array(Seq::empty())),
                ("cookie"@, JsonTree::Str(e.2)),
            ];
            let e0 = Seq::<(Seq<char>, JsonTree)>::empty();
            let s2 = s3.drop_last();
            let s1 = s2.drop_last();
            assert(s1.drop_last() == e0);
            assert(crate::json::members_insert_all(e0, s1.drop_last()) == e0);
            assert(crate::json::members_insert_all(e0, s1) == members_insert(e0, s1.last().0, s1.last().1));
            assert(crate::json::members_insert_all(e0, s2) == members_insert(crate::json::members_insert_all(e0, s1), s2.last().0, s2.last().1));
            assert(crate::json::members_insert_all(e0, s3) == members_insert(crate::json::members_insert_all(e0, s2), s3.last().0, s3.last().1));
            assert(trees(Seq::<JsonValue>::empty()) =~= Seq::<JsonTree>::empty());
            assert(tp@ == third_param_json(e.2, e.1));
            assert(x.local_storage@ =~= Seq::<LocalStorageItem>::empty());
        }
        let ls = local_storage_value(&x.local_storage);
        let nickname = lookup_string(&x.user_info, "nickname");
        let avatar_url = lookup_string(&x.user_info, "avatar_url");
        let third_id = lookup_string(&x.user_info, "third_id");
        let sec_uid = lookup_string(&x.user_info, "sec_uid");
        let message = x.message;
        BrowserAuthResult {
            step: if x.success { BrowserAuthStep::Completed } else { BrowserAuthStep::Failed(message.clone()) },
            message: message.clone(),
            nickname,
            avatar_url,
            third_id,
            sec_uid,
            cookie: x.cookie,
            local_storage: to_json_string(&ls),
            request_headers: to_json_string(&tp),
            current_url: String::from_str(current_url),
            need_poll: false,
            screenshot: None,
            error: if x.success { None } else { Some(message) },
        }
    }
}

} // verus!
