//! A JSON value model with exact accessors; reading and writing JSON text
//! is done by the JSON library.
//!
//! Objects keep their members sorted by key with no key twice, as the JSON
//! library's maps keep them.

use vstd::prelude::*;
use crate::chars::{chars_of, string_of, push_str};
use crate::numfmt::{dec, dec_int, push_dec, push_dec_i64};
use serde_json::Value;

verus! {

/// A JSON number as the JSON library keeps it: a non-negative integer, a
/// negative integer, or a floating point number given by its rendering.
pub enum JsonNumber {
    PosInt(u64),
    NegInt(i64),
    Float(String),
}

/// A JSON value.
pub enum JsonValue {
    Null,
    Bool(bool),
    Number(JsonNumber),
    Str(String),
    Array(Vec<JsonValue>),
    Object(Vec<(String, JsonValue)>),
}

/// The mathematical model of a JSON number.
pub enum NumTree {
    PosInt(u64),
    NegInt(i64),
    Float(Seq<char>),
}

/// The mathematical model of a JSON value.
pub enum JsonTree {
    Null,
    Bool(bool),
    Number(NumTree),
    Str(Seq<char>),
    Array(Seq<JsonTree>),
    Object(Seq<(Seq<char>, JsonTree)>),
}

/// Model of a number.
pub open spec fn num_tree(n: JsonNumber) -> NumTree {
    match n {
        JsonNumber::PosInt(u) => NumTree::PosInt(u),
        JsonNumber::NegInt(i) => NumTree::NegInt(i),
        JsonNumber::Float(t) => NumTree::Float(t@),
    }
}

/// Model of a value.
pub open spec fn tree(v: JsonValue) -> JsonTree
    decreases v, 0int,
{
    match v {
        JsonValue::Null => JsonTree::Null,
        JsonValue::Bool(b) => JsonTree::Bool(b),
        JsonValue::Number(n) => JsonTree::Number(num_tree(n)),
        JsonValue::Str(s) => JsonTree::Str(s@),
        JsonValue::Array(a) => JsonTree::Array(trees(a@)),
        JsonValue::Object(e) => JsonTree::Object(member_trees(e@)),
    }
}

/// Models of a sequence of values.
pub open spec fn trees(s: Seq<JsonValue>) -> Seq<JsonTree>
    decreases s, 1int,
{
    if s.len() == 0 {
        Seq::empty()
    } else {
        trees(s.drop_last()).push(tree(s.last()))
    }
}

/// Models of a sequence of object members.
pub open spec fn member_trees(s: Seq<(String, JsonValue)>) -> Seq<(Seq<char>, JsonTree)>
    decreases s, 1int,
{
    if s.len() == 0 {
        Seq::empty()
    } else {
        member_trees(s.drop_last()).push((s.last().0@, tree(s.last().1)))
    }
}

impl View for JsonValue {
    type V = JsonTree;

    open spec fn view(&self) -> JsonTree {
        tree(*self)
    }
}

/// `trees` maps element by element.
pub proof fn lemma_trees_index(s: Seq<JsonValue>)
    ensures
        trees(s).len() == s.len(),
        forall|i: int| 0 <= i < s.len() ==> #[trigger] trees(s)[i] == tree(s[i]),
    decreases s.len(),
{
    if s.len() > 0 {
        lemma_trees_index(s.drop_last());
    }
}

/// `member_trees` maps member by member.
pub proof fn lemma_member_trees_index(s: Seq<(String, JsonValue)>)
    ensures
        member_trees(s).len() == s.len(),
        forall|i: int| 0 <= i < s.len() ==> #[trigger] member_trees(s)[i] == (s[i].0@, tree(s[i].1)),
    decreases s.len(),
{
    if s.len() > 0 {
        lemma_member_trees_index(s.drop_last());
    }
}

// ---------------------------------------------------------------------------
// Lookup
// ---------------------------------------------------------------------------

/// The value of the first member named `key`.
pub open spec fn members_lookup(m: Seq<(Seq<char>, JsonTree)>, key: Seq<char>) -> Option<JsonTree>
    decreases m.len(),
{
    if m.len() == 0 {
        None
    } else if m[0].0 == key {
        Some(m[0].1)
    } else {
        members_lookup(m.subrange(1, m.len() as int), key)
    }
}

impl JsonTree {
    /// The member `key` of an object; `None` for a missing key or a non-object.
    pub open spec fn get(self, key: Seq<char>) -> Option<JsonTree> {
        match self {
            JsonTree::Object(m) => members_lookup(m, key),
            _ => None,
        }
    }

    /// The text of a string value.
    pub open spec fn as_str(self) -> Option<Seq<char>> {
        match self {
            JsonTree::Str(s) => Some(s),
            _ => None,
        }
    }

    /// The value of an integer that fits in `i64`.
    pub open spec fn as_i64(self) -> Option<i64> {
        match self {
            JsonTree::Number(NumTree::PosInt(u)) => if u <= i64::MAX as u64 { Some(u as i64) } else { None },
            JsonTree::Number(NumTree::NegInt(i)) => Some(i),
            _ => None,
        }
    }

    /// The elements of an array.
    pub open spec fn as_array(self) -> Option<Seq<JsonTree>> {
        match self {
            JsonTree::Array(a) => Some(a),
            _ => None,
        }
    }

    /// The text of the string member `key`.
    pub open spec fn get_str(self, key: Seq<char>) -> Option<Seq<char>> {
        match self.get(key) {
            Some(v) => v.as_str(),
            None => None,
        }
    }

    /// The text of the string member `key`, or the empty text.
    pub open spec fn str_or_empty(self, key: Seq<char>) -> Seq<char> {
        match self.get_str(key) {
            Some(s) => s,
            None => Seq::empty(),
        }
    }

    /// The `i64` member `key`.
    pub open spec fn get_i64(self, key: Seq<char>) -> Option<i64> {
        match self.get(key) {
            Some(v) => v.as_i64(),
            None => None,
        }
    }
}

impl JsonValue {
    /// The member `key` of an object.
    pub fn get(&self, key: &str) -> (r: Option<&JsonValue>)
        ensures
            r is Some <==> self@.get(key@) is Some,
            r matches Some(v) ==> self@.get(key@) == Some(v@),
    {
        match self {
            JsonValue::Object(e) => {
                let k = String::from_str(key);
                let ghost m = member_trees(e@);
                proof {
                    lemma_member_trees_index(e@);
                    assert(m.subrange(0, m.len() as int) == m);
                }
                let mut i: usize = 0;
                while i < e.len()
                    invariant
                        i <= e.len(),
                        k@ == key@,
                        *self == JsonValue::Object(*e),
                        m == member_trees(e@),
                        m.len() == e@.len(),
                        forall|j: int| 0 <= j < e@.len() ==> #[trigger] m[j] == (e@[j].0@, tree(e@[j].1)),
                        members_lookup(m, key@) == members_lookup(m.subrange(i as int, m.len() as int), key@),
                    decreases e.len() - i,
                {
                    proof {
                        let t = m.subrange(i as int, m.len() as int);
                        assert(t[0] == m[i as int]);
                        assert(t.subrange(1, t.len() as int) == m.subrange(i + 1, m.len() as int));
                    }
                    if e[i].0 == k {
                        return Some(&e[i].1);
                    }
                    i = i + 1;
                }
                None
            },
            _ => None,
        }
    }

    /// The text of a string value.
    pub fn as_str(&self) -> (r: Option<&String>)
        ensures
            r is Some <==> self@.as_str() is Some,
            r matches Some(s) ==> self@.as_str() == Some(s@),
    {
        match self {
            JsonValue::Str(s) => Some(s),
            _ => None,
        }
    }

    /// The value of an integer that fits in `i64`.
    pub fn as_i64(&self) -> (r: Option<i64>)
        ensures
            r == self@.as_i64(),
    {
        match self {
            JsonValue::Number(JsonNumber::PosInt(u)) => if *u <= i64::MAX as u64 { Some(*u as i64) } else { None },
            JsonValue::Number(JsonNumber::NegInt(i)) => Some(*i),
            _ => None,
        }
    }

    /// The elements of an array.
    pub fn as_array(&self) -> (r: Option<&Vec<JsonValue>>)
        ensures
            r is Some <==> self@.as_array() is Some,
            r matches Some(a) ==> self@.as_array() == Some(trees(a@)),
    {
        match self {
            JsonValue::Array(a) => Some(a),
            _ => None,
        }
    }

    /// Whether this is `null`.
    pub fn is_null(&self) -> (r: bool)
        ensures
            r == (self@ is Null),
    {
        match self {
            JsonValue::Null => true,
            _ => false,
        }
    }

    /// Whether this is an object.
    pub fn is_object(&self) -> (r: bool)
        ensures
            r == (self@ is Object),
    {
        match self {
            JsonValue::Object(_) => true,
            _ => false,
        }
    }

    /// The text of the string member `key`.
    pub fn get_str(&self, key: &str) -> (r: Option<String>)
        ensures
            r is Some <==> self@.get_str(key@) is Some,
            r matches Some(s) ==> self@.get_str(key@) == Some(s@),
    {
        match self.get(key) {
            Some(v) => match v.as_str() {
                Some(s) => Some(s.clone()),
                None => None,
            },
            None => None,
        }
    }

    /// The text of the string member `key`, or the empty text.
    pub fn str_or_empty(&self, key: &str) -> (r: String)
        ensures
            r@ == self@.str_or_empty(key@),
    {
        match self.get_str(key) {
            Some(s) => s,
            None => String::new(),
        }
    }

    /// The `i64` member `key`.
    pub fn get_i64(&self, key: &str) -> (r: Option<i64>)
        ensures
            r == self@.get_i64(key@),
    {
        match self.get(key) {
            Some(v) => v.as_i64(),
            None => None,
        }
    }
}

// ---------------------------------------------------------------------------
// Construction and copying
// ---------------------------------------------------------------------------

/// A string value holding `s`.
pub fn jstr(s: &str) -> (r: JsonValue)
    ensures
        r@ == JsonTree::Str(s@),
{
    JsonValue::Str(String::from_str(s))
}

/// An integer value.
pub fn jint(i: i64) -> (r: JsonValue)
    ensures
        r@ == int_tree(i as int),
{
    if i >= 0 {
        JsonValue::Number(JsonNumber::PosInt(i as u64))
    } else {
        JsonValue::Number(JsonNumber::NegInt(i))
    }
}

/// The model of the integer `i`, as the JSON library stores it.
pub open spec fn int_tree(i: int) -> JsonTree {
    if i >= 0 {
        JsonTree::Number(NumTree::PosInt(i as u64))
    } else {
        JsonTree::Number(NumTree::NegInt(i as i64))
    }
}

/// A copy of `n`.
pub fn copy_number(n: &JsonNumber) -> (r: JsonNumber)
    ensures
        num_tree(r) == num_tree(*n),
{
    match n {
        JsonNumber::PosInt(u) => JsonNumber::PosInt(*u),
        JsonNumber::NegInt(i) => JsonNumber::NegInt(*i),
        JsonNumber::Float(t) => JsonNumber::Float(t.clone()),
    }
}

/// A copy of `v`.
pub fn copy_json(v: &JsonValue) -> (r: JsonValue)
    ensures
        r@ == v@,
    decreases v,
{
    match v {
        JsonValue::Null => JsonValue::Null,
        JsonValue::Bool(b) => JsonValue::Bool(*b),
        JsonValue::Number(n) => JsonValue::Number(copy_number(n)),
        JsonValue::Str(s) => JsonValue::Str(s.clone()),
        JsonValue::Array(a) => {
            let mut out: Vec<JsonValue> = Vec::new();
            let mut i: usize = 0;
            while i < a.len()
                invariant
                    i <= a.len(),
                    *v == JsonValue::Array(*a),
                    trees(out@) == trees(a@.subrange(0, i as int)),
                decreases a.len() - i,
            {
                proof {
                    broadcast use vstd::std_specs::vec::axiom_vec_index_decreases;
                    assert(decreases_to!(*v => (*v)->Array_0));
                    assert(decreases_to!(*a => a[i as int]));
                }
                let x = copy_json(&a[i]);
                let ghost prev = out@;
                out.push(x);
                i = i + 1;
                assert(a@.subrange(0, i as int).drop_last() == a@.subrange(0, i - 1));
                assert(out@.drop_last() == prev);
            }
            assert(a@.subrange(0, a.len() as int) == a@);
            JsonValue::Array(out)
        },
        JsonValue::Object(e) => {
            let mut out: Vec<(String, JsonValue)> = Vec::new();
            let mut i: usize = 0;
            while i < e.len()
                invariant
                    i <= e.len(),
                    *v == JsonValue::Object(*e),
                    member_trees(out@) == member_trees(e@.subrange(0, i as int)),
                decreases e.len() - i,
            {
                proof {
                    broadcast use vstd::std_specs::vec::axiom_vec_index_decreases;
                    assert(decreases_to!(*v => (*v)->Object_0));
                    assert(decreases_to!(*e => e[i as int]));
                    assert(decreases_to!(e[i as int] => e[i as int].1));
                }
                let x = copy_json(&e[i].1);
                let k = e[i].0.clone();
                let ghost prev = out@;
                out.push((k, x));
                i = i + 1;
                assert(e@.subrange(0, i as int).drop_last() == e@.subrange(0, i - 1));
                assert(out@.drop_last() == prev);
            }
            assert(e@.subrange(0, e.len() as int) == e@);
            JsonValue::Object(out)
        },
    }
}


// ---------------------------------------------------------------------------
// Compact text (by the JSON library)
// ---------------------------------------------------------------------------

/// The text of a number.
pub open spec fn num_text(n: NumTree) -> Seq<char> {
    match n {
        NumTree::PosInt(u) => dec(u as nat),
        NumTree::NegInt(i) => dec_int(i as int),
        NumTree::Float(t) => t,
    }
}

/// The text of a number.
pub fn number_text(n: &JsonNumber) -> (r: String)
    ensures
        r@ == num_text(num_tree(*n)),
{
    let mut out: Vec<char> = Vec::new();
    match n {
        JsonNumber::PosInt(u) => push_dec(&mut out, *u as u128),
        JsonNumber::NegInt(i) => push_dec_i64(&mut out, *i),
        JsonNumber::Float(t) => push_str(&mut out, t.as_str()),
    }
    string_of(out.as_slice())
}

/// The compact text the JSON library writes for a value.
pub uninterp spec fn json_text(t: JsonTree) -> Seq<char>;

/// Writes `v` with `serde_json::to_string`, after converting it to a
/// `serde_json::Value` by `to_library_value`.
///
/// Trusted: the text is taken to be a function of the value alone, named
/// `json_text`; nothing of the JSON syntax is stated. Writing a
/// `serde_json::Value` does not fail (its map keys are strings).
#[verifier::external_body]
fn library_to_string(v: &JsonValue) -> (r: String)
    ensures
        r@ == json_text(v@),
{
    serde_json::to_string(&to_library_value(v)).unwrap_or_default()
}

/// Converts this module's value into the JSON library's value, variant by
/// variant (a floating point number is read back from its text, and one
/// that does not read becomes `null`; object members are inserted in order).
#[verifier::external_body]
fn to_library_value(v: &JsonValue) -> Value {
    match v {
        JsonValue::Null => Value::Null,
        JsonValue::Bool(b) => Value::Bool(*b),
        JsonValue::Number(JsonNumber::PosInt(u)) => Value::from(*u),
        JsonValue::Number(JsonNumber::NegInt(i)) => Value::from(*i),
        JsonValue::Number(JsonNumber::Float(t)) => serde_json::from_str::<Value>(t).unwrap_or(Value::Null),
        JsonValue::Str(s) => Value::String(s.clone()),
        JsonValue::Array(a) => Value::Array(a.iter().map(to_library_value).collect()),
        JsonValue::Object(m) => Value::Object(m.iter().map(|(k, x)| (k.clone(), to_library_value(x))).collect()),
    }
}

/// The compact JSON text of `v`, as the JSON library writes it.
pub fn to_json_string(v: &JsonValue) -> (r: String)
    ensures
        r@ == json_text(v@),
{
    library_to_string(v)
}


// ---------------------------------------------------------------------------
// Member order
// ---------------------------------------------------------------------------

/// Strict lexicographic order of keys by code point, the order of the
/// library's sorted maps.
pub open spec fn key_lt(a: Seq<char>, b: Seq<char>) -> bool
    decreases a.len(),
{
    if a.len() == 0 {
        b.len() > 0
    } else if b.len() == 0 {
        false
    } else if a[0] < b[0] {
        true
    } else if a[0] == b[0] {
        key_lt(a.subrange(1, a.len() as int), b.subrange(1, b.len() as int))
    } else {
        false
    }
}

/// Exactly one of `a < b`, `a == b`, `b < a` holds.
pub proof fn lemma_key_trichotomy(a: Seq<char>, b: Seq<char>)
    ensures
        key_lt(a, b) || a == b || key_lt(b, a),
        !(key_lt(a, b) && key_lt(b, a)),
        key_lt(a, b) ==> a != b,
    decreases a.len(),
{
    if a.len() > 0 && b.len() > 0 && a[0] == b[0] {
        lemma_key_trichotomy(a.subrange(1, a.len() as int), b.subrange(1, b.len() as int));
        let ta = a.subrange(1, a.len() as int);
        let tb = b.subrange(1, b.len() as int);
        if ta == tb {
            assert forall|k: int| 0 <= k < a.len() implies a[k] == b[k] by {
                if k > 0 {
                    assert(a[k] == ta[k - 1] && b[k] == tb[k - 1]);
                }
            }
            assert(a =~= b);
        }
    }
}

/// Key order is transitive.
pub proof fn lemma_key_transitive(a: Seq<char>, b: Seq<char>, c: Seq<char>)
    requires
        key_lt(a, b),
        key_lt(b, c),
    ensures
        key_lt(a, c),
    decreases a.len(),
{
    if a.len() > 0 && b.len() > 0 && c.len() > 0 && a[0] == b[0] && b[0] == c[0] {
        lemma_key_transitive(a.subrange(1, a.len() as int), b.subrange(1, b.len() as int), c.subrange(1, c.len() as int));
    }
}

/// Compares two keys: -1 when `a` sorts before `b`, 0 when equal, 1 after.
pub fn key_compare(a: &[char], b: &[char]) -> (r: i8)
    ensures
        r == -1 <==> key_lt(a@, b@),
        r == 0 <==> a@ == b@,
        r == 1 <==> key_lt(b@, a@),
        r == -1 || r == 0 || r == 1,
{
    proof { lemma_key_trichotomy(a@, b@); }
    assert(a@.subrange(0, a@.len() as int) == a@);
    assert(b@.subrange(0, b@.len() as int) == b@);
    let mut i: usize = 0;
    while i < a.len() && i < b.len() && a[i] == b[i]
        invariant
            i <= a.len(),
            i <= b.len(),
            a@.subrange(0, i as int) == b@.subrange(0, i as int),
            key_lt(a@, b@) == key_lt(a@.subrange(i as int, a@.len() as int), b@.subrange(i as int, b@.len() as int)),
            key_lt(b@, a@) == key_lt(b@.subrange(i as int, b@.len() as int), a@.subrange(i as int, a@.len() as int)),
        decreases a.len() - i,
    {
        proof {
            let x = a@.subrange(i as int, a@.len() as int);
            let y = b@.subrange(i as int, b@.len() as int);
            assert(x.subrange(1, x.len() as int) == a@.subrange(i + 1, a@.len() as int));
            assert(y.subrange(1, y.len() as int) == b@.subrange(i + 1, b@.len() as int));
            assert(a@.subrange(0, i + 1) == a@.subrange(0, i as int).push(a@[i as int]));
            assert(b@.subrange(0, i + 1) == b@.subrange(0, i as int).push(b@[i as int]));
        }
        i = i + 1;
    }
    let ghost x = a@.subrange(i as int, a@.len() as int);
    let ghost y = b@.subrange(i as int, b@.len() as int);
    if i == a.len() && i == b.len() {
        assert(a@ =~= a@.subrange(0, i as int));
        assert(b@ =~= b@.subrange(0, i as int));
        assert(x.len() == 0 && y.len() == 0);
        0
    } else if i == a.len() {
        assert(x.len() == 0 && y.len() > 0);
        assert(a@.len() != b@.len());
        -1
    } else if i == b.len() {
        assert(y.len() == 0 && x.len() > 0);
        assert(a@.len() != b@.len());
        1
    } else {
        assert(x[0] == a@[i as int] && y[0] == b@[i as int]);
        assert(a@[i as int] != b@[i as int]);
        assert(a@ != b@);
        if a[i] < b[i] {
            -1
        } else {
            1
        }
    }
}

/// Position at which `key` belongs: the number of leading members whose key
/// sorts before it.
pub open spec fn scan_pos(m: Seq<(Seq<char>, JsonTree)>, key: Seq<char>) -> nat
    decreases m.len(),
{
    if m.len() > 0 && key_lt(m[0].0, key) {
        1 + scan_pos(m.subrange(1, m.len() as int), key)
    } else {
        0
    }
}

/// Members after setting `key` to `value`: an existing member at the sorted
/// position is replaced, otherwise the member is inserted there.
pub open spec fn members_insert(m: Seq<(Seq<char>, JsonTree)>, key: Seq<char>, value: JsonTree) -> Seq<(Seq<char>, JsonTree)> {
    let p = scan_pos(m, key) as int;
    if p < m.len() && m[p].0 == key {
        m.update(p, (key, value))
    } else {
        m.insert(p, (key, value))
    }
}

/// Members strictly sorted by key (so no key occurs twice).
pub open spec fn members_sorted(m: Seq<(Seq<char>, JsonTree)>) -> bool {
    forall|i: int, j: int| 0 <= i < j < m.len() ==> key_lt(#[trigger] m[i].0, #[trigger] m[j].0)
}

proof fn lemma_scan_pos_bound(m: Seq<(Seq<char>, JsonTree)>, key: Seq<char>)
    ensures
        scan_pos(m, key) <= m.len(),
        forall|j: int| 0 <= j < scan_pos(m, key) ==> key_lt(#[trigger] m[j].0, key),
        scan_pos(m, key) < m.len() ==> !key_lt(m[scan_pos(m, key) as int].0, key),
    decreases m.len(),
{
    if m.len() > 0 && key_lt(m[0].0, key) {
        let r = m.subrange(1, m.len() as int);
        lemma_scan_pos_bound(r, key);
        assert forall|j: int| 0 <= j < scan_pos(m, key) implies key_lt(#[trigger] m[j].0, key) by {
            if j > 0 {
                assert(m[j] == r[j - 1]);
            }
        }
    }
}

/// Setting a member keeps the members sorted.
pub proof fn lemma_insert_sorted(m: Seq<(Seq<char>, JsonTree)>, key: Seq<char>, value: JsonTree)
    requires
        members_sorted(m),
    ensures
        members_sorted(members_insert(m, key, value)),
{
    lemma_scan_pos_bound(m, key);
    let p = scan_pos(m, key) as int;
    let r = members_insert(m, key, value);
    if p < m.len() && m[p].0 == key {
        assert forall|i: int, j: int| 0 <= i < j < r.len() implies key_lt(#[trigger] r[i].0, #[trigger] r[j].0) by {
            assert(m[i].0 == r[i].0 && m[j].0 == r[j].0);
        }
    } else {
        if p < m.len() {
            lemma_key_trichotomy(m[p].0, key);
        }
        assert forall|i: int, j: int| 0 <= i < j < r.len() implies key_lt(#[trigger] r[i].0, #[trigger] r[j].0) by {
            if j < p {
                assert(r[i] == m[i] && r[j] == m[j]);
            } else if j == p {
                assert(r[i] == m[i]);
            } else if i == p {
                assert(r[j] == m[j - 1]);
                if j - 1 > p {
                    lemma_key_transitive(key, m[p].0, m[j - 1].0);
                }
            } else if i < p {
                assert(r[i] == m[i] && r[j] == m[j - 1]);
            } else {
                assert(r[i] == m[i - 1] && r[j] == m[j - 1]);
            }
        }
    }
}

/// Looking a key up in sorted members finds the member with that key.
pub proof fn lemma_lookup_sorted(m: Seq<(Seq<char>, JsonTree)>, key: Seq<char>, i: int)
    requires
        members_sorted(m),
        0 <= i < m.len(),
        m[i].0 == key,
    ensures
        members_lookup(m, key) == Some(m[i].1),
    decreases m.len(),
{
    if i > 0 {
        let r = m.subrange(1, m.len() as int);
        lemma_key_trichotomy(m[0].0, m[i].0);
        assert(r[i - 1] == m[i]);
        lemma_lookup_sorted(r, key, i - 1);
    }
}

/// A key absent from the members is not found.
pub proof fn lemma_lookup_absent(m: Seq<(Seq<char>, JsonTree)>, key: Seq<char>)
    requires
        forall|i: int| 0 <= i < m.len() ==> (#[trigger] m[i]).0 != key,
    ensures
        members_lookup(m, key) is None,
    decreases m.len(),
{
    if m.len() > 0 {
        let r = m.subrange(1, m.len() as int);
        assert forall|i: int| 0 <= i < r.len() implies (#[trigger] r[i]).0 != key by {
            assert(r[i] == m[i + 1]);
        }
        lemma_lookup_absent(r, key);
    }
}

/// After setting `key` to `value` in sorted members, looking up `key` gives
/// `value` and every other key gives what it gave before.
pub proof fn lemma_insert_lookup(m: Seq<(Seq<char>, JsonTree)>, key: Seq<char>, value: JsonTree, other: Seq<char>)
    requires
        members_sorted(m),
    ensures
        members_lookup(members_insert(m, key, value), key) == Some(value),
        other != key ==> members_lookup(members_insert(m, key, value), other) == members_lookup(m, other),
{
    lemma_insert_sorted(m, key, value);
    lemma_scan_pos_bound(m, key);
    let p = scan_pos(m, key) as int;
    let r = members_insert(m, key, value);
    assert(r[p] == (key, value));
    lemma_lookup_sorted(r, key, p);
    if other != key {
        if exists|i: int| 0 <= i < m.len() && m[i].0 == other {
            let i = choose|i: int| 0 <= i < m.len() && m[i].0 == other;
            lemma_lookup_sorted(m, other, i);
            if p < m.len() && m[p].0 == key {
                assert(r[i] == m[i]);
                lemma_lookup_sorted(r, other, i);
            } else if i < p {
                assert(r[i] == m[i]);
                lemma_lookup_sorted(r, other, i);
            } else {
                assert(r[i + 1] == m[i]);
                lemma_lookup_sorted(r, other, i + 1);
            }
        } else {
            lemma_lookup_absent(m, other);
            assert forall|i: int| 0 <= i < r.len() implies (#[trigger] r[i]).0 != other by {
                if i < p {
                    assert(r[i] == m[i]);
                } else if i > p {
                    if p < m.len() && m[p].0 == key {
                        assert(r[i] == m[i]);
                    } else {
                        assert(r[i] == m[i - 1]);
                    }
                }
            }
            lemma_lookup_absent(r, other);
        }
    }
}

/// Sets member `key` of a sorted member list to `value`.
pub fn members_set(e: &mut Vec<(String, JsonValue)>, key: String, value: JsonValue)
    ensures
        member_trees(final(e)@) == members_insert(member_trees(old(e)@), key@, value@),
{
    let ghost m = member_trees(e@);
    proof {
        lemma_member_trees_index(e@);
        assert(m.subrange(0, m.len() as int) == m);
    }
    let kc = chars_of(key.as_str());
    let mut i: usize = 0;
    while i < e.len() && key_compare(chars_of(e[i].0.as_str()).as_slice(), kc.as_slice()) == -1
        invariant
            i <= e.len(),
            e@ == old(e)@,
            m == member_trees(e@),
            m.len() == e@.len(),
            kc@ == key@,
            forall|j: int| 0 <= j < e@.len() ==> #[trigger] m[j] == (e@[j].0@, tree(e@[j].1)),
            scan_pos(m, key@) == i + scan_pos(m.subrange(i as int, m.len() as int), key@),
        decreases e.len() - i,
    {
        proof {
            let t = m.subrange(i as int, m.len() as int);
            assert(t[0] == m[i as int]);
            assert(t.subrange(1, t.len() as int) == m.subrange(i + 1, m.len() as int));
        }
        i = i + 1;
    }
    proof {
        if i == e.len() {
            assert(m.subrange(i as int, m.len() as int).len() == 0);
        } else {
            let t = m.subrange(i as int, m.len() as int);
            assert(t[0] == m[i as int]);
        }
    }
    let found = i < e.len() && key_compare(chars_of(e[i].0.as_str()).as_slice(), kc.as_slice()) == 0;
    let ghost p = scan_pos(m, key@);
    assert(p == i);
    let ghost vt = value@;
    if i < e.len() && found {
        e.set(i, (key, value));
        proof {
            lemma_member_trees_index(e@);
            assert(member_trees(e@) =~= m.update(i as int, (key@, vt)));
        }
    } else {
        e.insert(i, (key, value));
        proof {
            lemma_member_trees_index(e@);
            assert(member_trees(e@) =~= m.insert(i as int, (key@, vt)));
        }
    }
}


/// Members after setting each `(key, value)` of `pairs` in turn.
pub open spec fn members_insert_all(m: Seq<(Seq<char>, JsonTree)>, pairs: Seq<(Seq<char>, JsonTree)>) -> Seq<(Seq<char>, JsonTree)>
    decreases pairs.len(),
{
    if pairs.len() == 0 {
        m
    } else {
        let last = pairs.last();
        members_insert(members_insert_all(m, pairs.drop_last()), last.0, last.1)
    }
}

/// An object built by setting each `(key, value)` of `pairs` in turn.
pub open spec fn object_of(pairs: Seq<(Seq<char>, JsonTree)>) -> JsonTree {
    JsonTree::Object(members_insert_all(Seq::empty(), pairs))
}

/// An empty object.
pub fn empty_object() -> (r: JsonValue)
    ensures
        r@ == JsonTree::Object(Seq::empty()),
{
    let e: Vec<(String, JsonValue)> = Vec::new();
    assert(member_trees(e@) =~= Seq::<(Seq<char>, JsonTree)>::empty());
    JsonValue::Object(e)
}

/// Sets member `key` of the object `obj` to `value`; a non-object is first
/// replaced by an empty object, as indexing assignment does.
pub fn obj_set(obj: &mut JsonValue, key: &str, value: JsonValue)
    ensures
        final(obj)@ == JsonTree::Object(members_insert(
            match old(obj)@ { JsonTree::Object(m) => m, _ => Seq::empty() },
            key@,
            value@,
        )),
{
    let k = String::from_str(key);
    match obj {
        JsonValue::Object(e) => {
            members_set(e, k, value);
        },
        _ => {
            let mut e: Vec<(String, JsonValue)> = Vec::new();
            assert(member_trees(e@) =~= Seq::<(Seq<char>, JsonTree)>::empty());
            members_set(&mut e, k, value);
            *obj = JsonValue::Object(e);
        },
    }
}

// ---------------------------------------------------------------------------
// Parsing (by the JSON library)
// ---------------------------------------------------------------------------

#[verifier::external_type_specification]
#[verifier::external_body]
pub struct ExLibraryJsonValue(serde_json::Value);

/// What the JSON library reads from `text`: the value, or the text of its
/// error message when the text is not JSON.
pub uninterp spec fn spec_parse_json(text: Seq<char>) -> Result<JsonTree, Seq<char>>;

/// Parses `text` with `serde_json::from_str::<serde_json::Value>`.
///
/// Trusted: the outcome (value, or the error's `to_string()`) is taken to be
/// a function of the text alone, named `spec_parse_json`; nothing else about
/// the JSON grammar is stated.
#[verifier::external_body]
fn library_parse(text: &str) -> (r: Result<JsonValue, String>)
    ensures
        match r {
            Ok(v) => spec_parse_json(text@) == Ok::<JsonTree, Seq<char>>(v@),
            Err(e) => spec_parse_json(text@) == Err::<JsonTree, Seq<char>>(e@),
        },
{
    match serde_json::from_str::<serde_json::Value>(text) {
        Ok(v) => Ok(from_library_value(v)),
        Err(e) => Err(e.to_string()),
    }
}

/// Reads a JSON text: the value, or the reason it is not JSON, as the JSON
/// library reads it.
pub fn parse_json(text: &str) -> (r: Result<JsonValue, String>)
    ensures
        match r {
            Ok(v) => spec_parse_json(text@) == Ok::<JsonTree, Seq<char>>(v@),
            Err(e) => spec_parse_json(text@) == Err::<JsonTree, Seq<char>>(e@),
        },
{
    library_parse(text)
}

/// Converts the JSON library's value into this module's value, variant by
/// variant (numbers keep the library's integer kind, or its rendering for
/// floating point numbers; object members keep the library's order).
#[verifier::external_body]
fn from_library_value(v: serde_json::Value) -> JsonValue {
    match v {
        serde_json::Value::Null => JsonValue::Null,
        serde_json::Value::Bool(b) => JsonValue::Bool(b),
        serde_json::Value::Number(n) => JsonValue::Number(match (n.as_u64(), n.as_i64()) {
            (Some(u), _) => JsonNumber::PosInt(u),
            (None, Some(i)) => JsonNumber::NegInt(i),
            _ => JsonNumber::Float(n.to_string()),
        }),
        serde_json::Value::String(s) => JsonValue::Str(s),
        serde_json::Value::Array(a) => JsonValue::Array(a.into_iter().map(from_library_value).collect()),
        serde_json::Value::Object(m) => JsonValue::Object(m.into_iter().map(|(k, x)| (k, from_library_value(x))).collect()),
    }
}

} // verus!
