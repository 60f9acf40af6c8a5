//! Conversions between Rust strings and character vectors, and small
//! character level helpers shared by the other modules.

use vstd::prelude::*;

verus! {

/// The characters of `s`, in order.
#[verifier::external_body]
pub(crate) fn chars_of(s: &str) -> (v: Vec<char>)
    ensures
        v@ == s@,
        v@.len() <= usize::MAX / 8,
{
    s.chars().collect()
}

/// A `String` holding exactly the characters of `v`.
#[verifier::external_body]
pub(crate) fn string_of(v: &[char]) -> (s: String)
    ensures
        s@ == v@,
{
    v.iter().collect()
}

/// Appends the characters of `s` to `out`.
pub fn push_str(out: &mut Vec<char>, s: &str)
    ensures
        final(out)@ == old(out)@ + s@,
{
    let v = chars_of(s);
    let mut i: usize = 0;
    while i < v.len()
        invariant
            i <= v.len(),
            out@ == old(out)@ + v@.subrange(0, i as int),
        decreases v.len() - i,
    {
        out.push(v[i]);
        i = i + 1;
        assert(v@.subrange(0, i as int) == v@.subrange(0, i - 1).push(v@[i - 1]));
    }
    assert(v@.subrange(0, v.len() as int) == v@);
}

/// Appends the characters of `s` to `out`.
pub fn push_chars(out: &mut Vec<char>, s: &[char])
    ensures
        final(out)@ == old(out)@ + s@,
{
    let mut i: usize = 0;
    while i < s.len()
        invariant
            i <= s.len(),
            out@ == old(out)@ + s@.subrange(0, i as int),
        decreases s.len() - i,
    {
        out.push(s[i]);
        i = i + 1;
        assert(s@.subrange(0, i as int) == s@.subrange(0, i - 1).push(s@[i - 1]));
    }
    assert(s@.subrange(0, s.len() as int) == s@);
}

/// Whether two character sequences are equal.
pub fn chars_eq(a: &[char], b: &[char]) -> (r: bool)
    ensures
        r == (a@ == b@),
{
    if a.len() != b.len() {
        return false;
    }
    let mut i: usize = 0;
    while i < a.len()
        invariant
            a.len() == b.len(),
            i <= a.len(),
            forall|j: int| 0 <= j < i ==> a@[j] == b@[j],
        decreases a.len() - i,
    {
        if a[i] != b[i] {
            return false;
        }
        i = i + 1;
    }
    assert(a@ =~= b@);
    true
}

/// Whether `p` occurs in `s` starting at character position `at`.
pub open spec fn occurs_at(s: Seq<char>, p: Seq<char>, at: int) -> bool {
    0 <= at && at + p.len() <= s.len() && s.subrange(at, at + p.len()) == p
}

/// Whether `s` begins with `p`.
pub open spec fn has_prefix(s: Seq<char>, p: Seq<char>) -> bool {
    occurs_at(s, p, 0)
}

/// Whether `s` ends with `p`.
pub open spec fn has_suffix(s: Seq<char>, p: Seq<char>) -> bool {
    occurs_at(s, p, s.len() - p.len())
}

/// Whether `p` occurs anywhere in `s`.
pub open spec fn contains_seq(s: Seq<char>, p: Seq<char>) -> bool {
    exists|i: int| occurs_at(s, p, i)
}

/// Whether `p` occurs in `s` at position `at`.
pub fn matches_at(s: &[char], p: &[char], at: usize) -> (r: bool)
    ensures
        r == occurs_at(s@, p@, at as int),
{
    if at > s.len() || p.len() > s.len() - at {
        return false;
    }
    let mut j: usize = 0;
    while j < p.len()
        invariant
            at + p.len() <= s.len(),
            j <= p.len(),
            forall|k: int| 0 <= k < j ==> s@[at + k] == p@[k],
        decreases p.len() - j,
    {
        if s[at + j] != p[j] {
            assert(s@.subrange(at as int, at + p.len())[j as int] != p@[j as int]);
            return false;
        }
        j = j + 1;
    }
    assert(s@.subrange(at as int, at + p.len()) =~= p@);
    true
}

/// The first position at or after `from` where `p` occurs in `s`.
pub open spec fn first_occurrence_from(s: Seq<char>, p: Seq<char>, from: int) -> Option<int> {
    if exists|i: int| from <= i && occurs_at(s, p, i) {
        let i = choose|i: int| from <= i && occurs_at(s, p, i) && forall|k: int| from <= k < i ==> !occurs_at(s, p, k);
        Some(i)
    } else {
        None
    }
}

/// The first position at or after `from` where `p` occurs in `s`, if any.
pub fn find_from(s: &[char], p: &[char], from: usize) -> (r: Option<usize>)
    ensures
        match r {
            Some(i) => from <= i && occurs_at(s@, p@, i as int)
                && forall|k: int| from <= k < i ==> !occurs_at(s@, p@, k),
            None => forall|k: int| from <= k ==> !occurs_at(s@, p@, k),
        },
{
    if from > s.len() {
        assert forall|k: int| from <= k implies !occurs_at(s@, p@, k) by {}
        return None;
    }
    let mut i: usize = from;
    loop
        invariant
            from <= i <= s.len(),
            forall|k: int| from <= k < i ==> !occurs_at(s@, p@, k),
        decreases s.len() - i,
    {
        if matches_at(s, p, i) {
            return Some(i);
        }
        if i == s.len() {
            assert forall|k: int| from <= k implies !occurs_at(s@, p@, k) by {
                if k < i {
                } else if k == i {
                } else {
                }
            }
            return None;
        }
        i = i + 1;
    }
}


/// The items separated by `sep`.
pub open spec fn join_with(items: Seq<Seq<char>>, sep: Seq<char>) -> Seq<char>
    decreases items.len(),
{
    if items.len() == 0 {
        Seq::empty()
    } else if items.len() == 1 {
        items[0]
    } else {
        join_with(items.drop_last(), sep) + sep + items.last()
    }
}

/// The items separated by `sep`.
pub fn join_chars(items: &Vec<Vec<char>>, sep: &[char]) -> (r: Vec<char>)
    ensures
        r@ == join_with(items@.map_values(|x: Vec<char>| x@), sep@),
{
    let ghost all = items@.map_values(|x: Vec<char>| x@);
    let mut out: Vec<char> = Vec::new();
    let mut i: usize = 0;
    while i < items.len()
        invariant
            i <= items.len(),
            all == items@.map_values(|x: Vec<char>| x@),
            out@ == join_with(all.subrange(0, i as int), sep@),
        decreases items.len() - i,
    {
        proof {
            let s1 = all.subrange(0, i + 1);
            assert(s1.drop_last() == all.subrange(0, i as int));
            assert(s1.last() == items@[i as int]@);
            if i == 0 {
                assert(s1.len() == 1 && s1[0] == items@[0]@);
            }
        }
        if i > 0 {
            push_chars(&mut out, sep);
        }
        push_chars(&mut out, items[i].as_slice());
        i = i + 1;
    }
    assert(all.subrange(0, items.len() as int) == all);
    out
}


/// `s` with the prefix `p` removed as many times as it repeats
/// (`str::trim_start_matches` with a non-empty string pattern).
pub open spec fn trim_prefix_all(s: Seq<char>, p: Seq<char>) -> Seq<char>
    decreases s.len(),
{
    if p.len() > 0 && has_prefix(s, p) {
        trim_prefix_all(s.subrange(p.len() as int, s.len() as int), p)
    } else {
        s
    }
}

/// `s` with every trailing `c` removed (`str::trim_end_matches` with a character).
pub open spec fn trim_suffix_char_all(s: Seq<char>, c: char) -> Seq<char>
    decreases s.len(),
{
    if s.len() > 0 && s.last() == c {
        trim_suffix_char_all(s.drop_last(), c)
    } else {
        s
    }
}

/// The pieces of `s` between occurrences of `c`, where `cur` is the piece
/// collected so far (`str::split` with a character: `n` separators give
/// `n + 1` pieces).
pub open spec fn split_from(s: Seq<char>, c: char, cur: Seq<char>) -> Seq<Seq<char>>
    decreases s.len(),
{
    if s.len() == 0 {
        seq![cur]
    } else if s[0] == c {
        seq![cur] + split_from(s.subrange(1, s.len() as int), c, Seq::empty())
    } else {
        split_from(s.subrange(1, s.len() as int), c, cur.push(s[0]))
    }
}

/// Splitting a text without the separator gives the piece collected so far
/// followed by the whole text.
pub proof fn lemma_split_without_separator(s: Seq<char>, c: char, cur: Seq<char>)
    requires
        forall|i: int| 0 <= i < s.len() ==> s[i] != c,
    ensures
        split_from(s, c, cur) == seq![cur + s],
    decreases s.len(),
{
    if s.len() == 0 {
        assert(cur + s =~= cur);
    } else {
        let t = s.subrange(1, s.len() as int);
        lemma_split_without_separator(t, c, cur.push(s[0]));
        assert(cur.push(s[0]) + t =~= cur + s);
    }
}

/// Splitting `p`, the separator and `q` gives the pieces of `p` followed by
/// those of `q`.
pub proof fn lemma_split_join(p: Seq<char>, q: Seq<char>, c: char, cur: Seq<char>)
    ensures
        split_from(p + seq![c] + q, c, cur) == split_from(p, c, cur) + split_from(q, c, Seq::empty()),
    decreases p.len(),
{
    let s = p + seq![c] + q;
    if p.len() == 0 {
        assert(s[0] == c);
        assert(s.subrange(1, s.len() as int) =~= q);
    } else {
        let pt = p.subrange(1, p.len() as int);
        assert(s[0] == p[0]);
        assert(s.subrange(1, s.len() as int) =~= pt + seq![c] + q);
        if p[0] == c {
            lemma_split_join(pt, q, c, Seq::empty());
            assert(seq![cur] + (split_from(pt, c, Seq::empty()) + split_from(q, c, Seq::empty()))
                =~= (seq![cur] + split_from(pt, c, Seq::empty())) + split_from(q, c, Seq::empty()));
        } else {
            lemma_split_join(pt, q, c, cur.push(p[0]));
        }
    }
}

/// The pieces of `s` between occurrences of `c`.
pub open spec fn split_char(s: Seq<char>, c: char) -> Seq<Seq<char>> {
    split_from(s, c, Seq::empty())
}

/// Whether `v` begins with the literal `lit`.
pub fn starts_with_lit(v: &[char], lit: &str) -> (r: bool)
    ensures
        r == has_prefix(v@, lit@),
{
    let l = chars_of(lit);
    matches_at(v, l.as_slice(), 0)
}

/// Whether `p` occurs anywhere in `s`.
pub fn contains_chars(s: &[char], p: &[char]) -> (r: bool)
    ensures
        r == contains_seq(s@, p@),
{
    match find_from(s, p, 0) {
        Some(i) => true,
        None => false,
    }
}

/// Whether `p` occurs anywhere in `s`.
pub fn str_contains(s: &str, p: &str) -> (r: bool)
    ensures
        r == contains_seq(s@, p@),
{
    let a = chars_of(s);
    let b = chars_of(p);
    contains_chars(a.as_slice(), b.as_slice())
}

/// Whether two strings are equal.
pub fn str_eq(a: &str, b: &str) -> (r: bool)
    ensures
        r == (a@ == b@),
{
    let x = chars_of(a);
    let y = chars_of(b);
    chars_eq(x.as_slice(), y.as_slice())
}

/// `s` with the non-empty prefix `p` removed as many times as it repeats.
pub fn trim_prefix_all_exec(s: &[char], p: &[char]) -> (r: Vec<char>)
    ensures
        r@ == trim_prefix_all(s@, p@),
{
    let mut i: usize = 0;
    assert(s@.subrange(0, s@.len() as int) == s@);
    while p.len() > 0 && matches_at(s, p, i)
        invariant
            i <= s.len(),
            trim_prefix_all(s@, p@) == trim_prefix_all(s@.subrange(i as int, s@.len() as int), p@),
        decreases s.len() - i,
    {
        proof {
            let t = s@.subrange(i as int, s@.len() as int);
            assert(t.subrange(0, p@.len() as int) == s@.subrange(i as int, i + p@.len()));
            assert(t.subrange(p@.len() as int, t.len() as int) == s@.subrange(i + p@.len(), s@.len() as int));
        }
        i = i + p.len();
    }
    proof {
        let t = s@.subrange(i as int, s@.len() as int);
        if p@.len() > 0 && has_prefix(t, p@) {
            assert(t.subrange(0, p@.len() as int) == s@.subrange(i as int, i + p@.len()));
        }
    }
    let mut out: Vec<char> = Vec::new();
    let mut k: usize = i;
    while k < s.len()
        invariant
            i <= k <= s.len(),
            out@ == s@.subrange(i as int, k as int),
        decreases s.len() - k,
    {
        out.push(s[k]);
        k = k + 1;
        assert(out@ == s@.subrange(i as int, k as int));
    }
    out
}

/// `s` with every trailing `c` removed.
pub fn trim_suffix_char_all_exec(s: &[char], c: char) -> (r: Vec<char>)
    ensures
        r@ == trim_suffix_char_all(s@, c),
{
    let mut j: usize = s.len();
    assert(s@.subrange(0, s@.len() as int) == s@);
    while j > 0 && s[j - 1] == c
        invariant
            j <= s.len(),
            trim_suffix_char_all(s@, c) == trim_suffix_char_all(s@.subrange(0, j as int), c),
        decreases j,
    {
        proof {
            let t = s@.subrange(0, j as int);
            assert(t.drop_last() == s@.subrange(0, j - 1));
        }
        j = j - 1;
    }
    proof {
        if j > 0 {
            assert(s@.subrange(0, j as int).last() == s@[j - 1]);
        }
    }
    let mut out: Vec<char> = Vec::new();
    let mut k: usize = 0;
    while k < j
        invariant
            k <= j <= s.len(),
            out@ == s@.subrange(0, k as int),
        decreases j - k,
    {
        out.push(s[k]);
        k = k + 1;
        assert(out@ == s@.subrange(0, k as int));
    }
    out
}

/// The pieces of `s` between occurrences of `c`.
pub fn split_char_exec(s: &[char], c: char) -> (r: Vec<Vec<char>>)
    ensures
        r@.map_values(|x: Vec<char>| x@) == split_char(s@, c),
        r@.len() >= 1,
{
    let mut parts: Vec<Vec<char>> = Vec::new();
    let mut cur: Vec<char> = Vec::new();
    let mut i: usize = 0;
    assert(s@.subrange(0, s@.len() as int) == s@);
    assert(parts@.map_values(|x: Vec<char>| x@) + split_from(s@, c, cur@) =~= split_char(s@, c));
    while i < s.len()
        invariant
            i <= s.len(),
            parts@.map_values(|x: Vec<char>| x@) + split_from(s@.subrange(i as int, s@.len() as int), c, cur@) == split_char(s@, c),
        decreases s.len() - i,
    {
        let ghost t = s@.subrange(i as int, s@.len() as int);
        proof {
            assert(t[0] == s@[i as int]);
            assert(t.subrange(1, t.len() as int) == s@.subrange(i + 1, s@.len() as int));
        }
        if s[i] == c {
            let ghost pv = parts@.map_values(|x: Vec<char>| x@);
            let ghost cv = cur@;
            let done = cur;
            parts.push(done);
            cur = Vec::new();
            proof {
                assert(parts@.map_values(|x: Vec<char>| x@) =~= pv.push(cv));
                assert(pv + (seq![cv] + split_from(s@.subrange(i + 1, s@.len() as int), c, Seq::empty()))
                    =~= pv.push(cv) + split_from(s@.subrange(i + 1, s@.len() as int), c, Seq::empty()));
                assert(cur@ =~= Seq::<char>::empty());
            }
        } else {
            cur.push(s[i]);
        }
        i = i + 1;
    }
    let ghost pv = parts@.map_values(|x: Vec<char>| x@);
    let ghost cv = cur@;
    parts.push(cur);
    assert(parts@.map_values(|x: Vec<char>| x@) =~= pv.push(cv));
    assert(s@.subrange(i as int, s@.len() as int) =~= Seq::<char>::empty());
    assert(pv + seq![cv] =~= pv.push(cv));
    parts
}

} // verus!
