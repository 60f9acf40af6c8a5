//! Text measurement and shaping used when composing captions: display
//! width of characters (CJK and emoji count double), width-bounded
//! substrings, tag stripping and whitespace trimming.

use vstd::prelude::*;
use crate::chars::{chars_of, string_of};

verus! {

/// Whether the code point lies in one of the CJK ranges counted as wide.
pub open spec fn spec_is_chinese(c: char) -> bool {
    let code = c as u32;
    (0x4E00 <= code <= 0x9FFF) || (0x3400 <= code <= 0x4DBF) || (0xF900 <= code <= 0xFAFF)
        || (0x3000 <= code <= 0x303F)
}

/// Whether the code point lies in one of the emoji and symbol ranges counted as wide.
pub open spec fn spec_is_emoji(c: char) -> bool {
    let code = c as u32;
    (0x1F600 <= code <= 0x1F64F) || (0x1F300 <= code <= 0x1F5FF) || (0x1F680 <= code <= 0x1F6FF)
        || (0x2600 <= code <= 0x26FF) || (0x2190 <= code <= 0x21FF) || (0xFE00 <= code <= 0xFE0F)
}

/// Display width of one character: 2 for CJK and emoji, 1 otherwise.
pub open spec fn char_width(c: char) -> nat {
    if spec_is_chinese(c) || spec_is_emoji(c) {
        2
    } else {
        1
    }
}

/// Display width of a character sequence: the sum of the widths of its characters.
pub open spec fn display_width(s: Seq<char>) -> nat
    decreases s.len(),
{
    if s.len() == 0 {
        0
    } else {
        display_width(s.drop_last()) + char_width(s.last())
    }
}

/// Which characters are wide: the CJK ideographs (U+4E00..U+9FFF, extension
/// A U+3400..U+4DBF, compatibility U+F900..U+FAFF), CJK punctuation
/// (U+3000..U+303F), the emoticons (U+1F600..U+1F64F), pictographs
/// (U+1F300..U+1F5FF), transport symbols (U+1F680..U+1F6FF), miscellaneous
/// symbols (U+2600..U+26FF), arrows (U+2190..U+21FF) and variation
/// selectors (U+FE00..U+FE0F) take two columns; every other character one.
pub proof fn law_char_width(c: char)
    ensures
        0x4E00 <= c as u32 <= 0x9FFF ==> char_width(c) == 2,
        0x3400 <= c as u32 <= 0x4DBF ==> char_width(c) == 2,
        0xF900 <= c as u32 <= 0xFAFF ==> char_width(c) == 2,
        0x3000 <= c as u32 <= 0x303F ==> char_width(c) == 2,
        0x1F600 <= c as u32 <= 0x1F64F ==> char_width(c) == 2,
        0x1F300 <= c as u32 <= 0x1F5FF ==> char_width(c) == 2,
        0x1F680 <= c as u32 <= 0x1F6FF ==> char_width(c) == 2,
        0x2600 <= c as u32 <= 0x26FF ==> char_width(c) == 2,
        0x2190 <= c as u32 <= 0x21FF ==> char_width(c) == 2,
        0xFE00 <= c as u32 <= 0xFE0F ==> char_width(c) == 2,
        !(0x4E00 <= c as u32 <= 0x9FFF || 0x3400 <= c as u32 <= 0x4DBF || 0xF900 <= c as u32 <= 0xFAFF
            || 0x3000 <= c as u32 <= 0x303F || 0x1F600 <= c as u32 <= 0x1F64F || 0x1F300 <= c as u32 <= 0x1F5FF
            || 0x1F680 <= c as u32 <= 0x1F6FF || 0x2600 <= c as u32 <= 0x26FF || 0x2190 <= c as u32 <= 0x21FF
            || 0xFE00 <= c as u32 <= 0xFE0F) ==> char_width(c) == 1,
{
}

/// The width of a text is the sum of its characters' widths: one character
/// measures its own width, and the width of two texts put together is the
/// sum of their widths.
pub proof fn law_width_additive(a: Seq<char>, b: Seq<char>, c: char)
    ensures
        display_width(seq![c]) == char_width(c),
        display_width(a + b) == display_width(a) + display_width(b),
    decreases b.len(),
{
    assert(seq![c].drop_last() =~= Seq::<char>::empty());
    assert(display_width(Seq::<char>::empty()) == 0);
    assert(display_width(seq![c]) == display_width(seq![c].drop_last()) + char_width(seq![c].last()));
    if b.len() == 0 {
        assert(a + b =~= a);
    } else {
        law_width_additive(a, b.drop_last(), c);
        assert((a + b).drop_last() =~= a + b.drop_last());
        assert((a + b).last() == b.last());
    }
}

/// Whether `c` is in the CJK ranges that count as two columns.
pub fn is_chinese(c: char) -> (r: bool)
    ensures
        r == spec_is_chinese(c),
{
    let code = c as u32;
    (0x4E00 <= code && code <= 0x9FFF) || (0x3400 <= code && code <= 0x4DBF) || (0xF900 <= code
        && code <= 0xFAFF) || (0x3000 <= code && code <= 0x303F)
}

/// Whether `c` is in the emoji and symbol ranges that count as two columns.
pub fn is_emoji(c: char) -> (r: bool)
    ensures
        r == spec_is_emoji(c),
{
    let code = c as u32;
    (0x1F600 <= code && code <= 0x1F64F) || (0x1F300 <= code && code <= 0x1F5FF) || (0x1F680
        <= code && code <= 0x1F6FF) || (0x2600 <= code && code <= 0x26FF) || (0x2190 <= code
        && code <= 0x21FF) || (0xFE00 <= code && code <= 0xFE0F)
}

fn width_of(c: char) -> (w: usize)
    ensures
        w == char_width(c),
{
    if is_chinese(c) || is_emoji(c) {
        2
    } else {
        1
    }
}

proof fn lemma_width_bound(s: Seq<char>)
    ensures
        display_width(s) <= 2 * s.len(),
    decreases s.len(),
{
    if s.len() > 0 {
        lemma_width_bound(s.drop_last());
    }
}

/// Display width of a character slice.
pub fn width_of_chars(v: &[char]) -> (n: usize)
    requires
        v@.len() <= usize::MAX / 8,
    ensures
        n == display_width(v@),
{
    let mut n: usize = 0;
    let mut i: usize = 0;
    while i < v.len()
        invariant
            i <= v.len(),
            v@.len() <= usize::MAX / 8,
            n == display_width(v@.subrange(0, i as int)),
        decreases v.len() - i,
    {
        proof {
            lemma_width_bound(v@.subrange(0, i as int));
            assert(v@.subrange(0, i + 1).drop_last() == v@.subrange(0, i as int));
        }
        n = n + width_of(v[i]);
        i = i + 1;
    }
    assert(v@.subrange(0, v.len() as int) == v@);
    n
}

/// Display width of `input`, counting CJK characters and emoji as 2 and every
/// other character as 1.
pub fn get_string_length(input: &str) -> (n: usize)
    ensures
        n == display_width(input@),
{
    let v = chars_of(input);
    width_of_chars(v.as_slice())
}

/// The characters kept by a width window: walking `s` with running width
/// `pos`, a character is kept when it starts at or after `start` and ends no
/// later than `end`.
pub open spec fn window_chars(s: Seq<char>, pos: int, start: int, end: int) -> Seq<char>
    decreases s.len(),
{
    if s.len() == 0 {
        Seq::empty()
    } else {
        let c = s[0];
        let w = char_width(c) as int;
        let rest = window_chars(s.subrange(1, s.len() as int), pos + w, start, end);
        if start <= pos && pos + w <= end {
            seq![c] + rest
        } else {
            rest
        }
    }
}

proof fn lemma_window_past_end(s: Seq<char>, pos: int, start: int, end: int)
    requires
        pos > end,
    ensures
        window_chars(s, pos, start, end) == Seq::<char>::empty(),
    decreases s.len(),
{
    if s.len() > 0 {
        lemma_window_past_end(s.subrange(1, s.len() as int), pos + char_width(s[0]) as int, start, end);
    }
}

proof fn lemma_window_step(s: Seq<char>, i: int, pos: int, start: int, end: int)
    requires
        0 <= i < s.len(),
    ensures
        window_chars(s.subrange(i, s.len() as int), pos, start, end) == (if start <= pos && pos
            + char_width(s[i]) <= end {
            seq![s[i]]
        } else {
            Seq::empty()
        }) + window_chars(s.subrange(i + 1, s.len() as int), pos + char_width(s[i]), start, end),
{
    let t = s.subrange(i, s.len() as int);
    assert(t[0] == s[i]);
    assert(t.subrange(1, t.len() as int) == s.subrange(i + 1, s.len() as int));
}

proof fn lemma_width_prepend(c: char, r: Seq<char>)
    ensures
        display_width(seq![c] + r) == char_width(c) + display_width(r),
    decreases r.len(),
{
    if r.len() == 0 {
        assert(seq![c] + r == seq![c]);
        assert(seq![c].drop_last() == Seq::<char>::empty());
        assert(display_width(Seq::<char>::empty()) == 0);
        assert(display_width(seq![c]) == display_width(seq![c].drop_last()) + char_width(seq![c].last()));
    } else {
        lemma_width_prepend(c, r.drop_last());
        let t = seq![c] + r;
        assert(t.drop_last() == seq![c] + r.drop_last());
        assert(t.last() == r.last());
        assert(display_width(t) == display_width(t.drop_last()) + char_width(t.last()));
        assert(display_width(r) == display_width(r.drop_last()) + char_width(r.last()));
    }
}

proof fn lemma_window_width(s: Seq<char>, pos: int, start: int, end: int)
    ensures
        (if pos < start { start } else { pos }) + display_width(window_chars(s, pos, start, end))
            <= (if end < (if pos < start { start } else { pos }) { if pos < start { start } else { pos } } else { end }),
    decreases s.len(),
{
    if s.len() > 0 {
        let c = s[0];
        let w = char_width(c) as int;
        let t = s.subrange(1, s.len() as int);
        lemma_window_width(t, pos + w, start, end);
        if start <= pos && pos + w <= end {
            lemma_width_prepend(c, window_chars(t, pos + w, start, end));
        }
    }
}

/// Whatever the text, the part that `substr` keeps fits in the width it
/// was given.
pub proof fn law_substr_fits(s: Seq<char>, start: nat, max_length: nat)
    ensures
        display_width(window_chars(s, 0, start as int, (start + max_length) as int)) <= max_length,
{
    lemma_window_width(s, 0, start as int, (start + max_length) as int);
}

/// Whether `p` is the longest prefix of `s` whose display width is at most
/// `n`: it is a prefix, it fits, and either it is all of `s` or the next
/// character would not fit.
pub open spec fn is_widest_prefix(p: Seq<char>, s: Seq<char>, n: int) -> bool {
    &&& p.len() <= s.len()
    &&& p == s.subrange(0, p.len() as int)
    &&& display_width(p) <= n
    &&& (p.len() == s.len() || display_width(p) + char_width(s[p.len() as int]) > n)
}

proof fn lemma_window_widest_prefix(s: Seq<char>, pos: int, start: int, end: int)
    requires
        start <= pos <= end,
    ensures
        is_widest_prefix(window_chars(s, pos, start, end), s, end - pos),
    decreases s.len(),
{
    if s.len() > 0 {
        let c = s[0];
        let w = char_width(c) as int;
        let t = s.subrange(1, s.len() as int);
        if pos + w <= end {
            lemma_window_widest_prefix(t, pos + w, start, end);
            let q = window_chars(t, pos + w, start, end);
            let p = seq![c] + q;
            lemma_width_prepend(c, q);
            assert(p =~= s.subrange(0, p.len() as int));
            if q.len() < t.len() {
                assert(s[p.len() as int] == t[q.len() as int]);
            }
        } else {
            lemma_window_past_end(t, pos + w, start, end);
            assert(window_chars(s, pos, start, end) == Seq::<char>::empty());
            assert(Seq::<char>::empty() =~= s.subrange(0, 0));
        }
    } else {
        assert(window_chars(s, pos, start, end) == Seq::<char>::empty());
        assert(Seq::<char>::empty() =~= s.subrange(0, 0));
    }
}

/// Cutting from the start, `substr` keeps the longest prefix of the text
/// whose display width fits in `max_length`: the kept text is a prefix of
/// the input made of whole characters, it fits, and it is either the whole
/// input or the next character would not fit.
pub proof fn law_substr_widest_prefix(s: Seq<char>, max_length: nat)
    ensures
        is_widest_prefix(window_chars(s, 0, 0, max_length as int), s, max_length as int),
{
    lemma_window_widest_prefix(s, 0, 0, max_length as int);
}

/// The part of `input` that fits in the width window `[start, start + max_length)`,
/// where positions are measured in display width (CJK and emoji count 2):
/// a character is kept when it starts at or after `start` and ends within the
/// window, so no wide character is ever split.
pub fn substr(input: &str, start: usize, max_length: usize) -> (r: String)
    requires
        start + max_length <= usize::MAX,
    ensures
        r@ == window_chars(input@, 0, start as int, start + max_length),
{
    let v = chars_of(input);
    if v.len() == 0 || max_length == 0 {
        proof {
            if v.len() > 0 {
                lemma_window_zero(input@, 0, start as int);
            }
        }
        return string_of(&Vec::new());
    }
    let end: usize = start + max_length;
    let mut out: Vec<char> = Vec::new();
    let mut count: usize = 0;
    let mut i: usize = 0;
    proof {
        lemma_width_bound(v@);
        assert(v@.subrange(0, v@.len() as int) == v@);
        assert(v@.subrange(0, 0) == Seq::<char>::empty());
        assert(out@ + window_chars(v@, 0, start as int, end as int) == window_chars(v@, 0, start as int, end as int));
    }
    while i < v.len()
        invariant
            i <= v.len(),
            v@ == input@,
            v@.len() <= usize::MAX / 8,
            end == start + max_length,
            count == display_width(v@.subrange(0, i as int)),
            out@ + window_chars(v@.subrange(i as int, v@.len() as int), count as int, start as int, end as int)
                == window_chars(v@, 0, start as int, end as int),
        decreases v.len() - i,
    {
        proof {
            lemma_width_bound(v@.subrange(0, i as int));
            lemma_window_step(v@, i as int, count as int, start as int, end as int);
            assert(v@.subrange(0, i + 1).drop_last() == v@.subrange(0, i as int));
        }
        let c = v[i];
        let w = width_of(c);
        if count >= start && count < end {
            if count + w > end {
                proof {
                    lemma_window_past_end(v@.subrange(i + 1, v@.len() as int), (count + w) as int, start as int, end as int);
                    assert(out@ + Seq::<char>::empty() == out@);
                }
                return string_of(out.as_slice());
            }
            out.push(c);
        }
        proof {
            if count >= end {
                assert(!(count + w <= end));
            }
        }
        count = count + w;
        i = i + 1;
        proof {
            assert(v@.subrange(0, i as int).drop_last() == v@.subrange(0, i - 1));
        }
    }
    proof {
        if i == v.len() {
            assert(v@.subrange(i as int, v@.len() as int) == Seq::<char>::empty());
        }
    }
    string_of(out.as_slice())
}

proof fn lemma_window_zero(s: Seq<char>, pos: int, start: int)
    requires
        pos >= 0,
    ensures
        window_chars(s, pos, start, start) == Seq::<char>::empty(),
    decreases s.len(),
{
    if s.len() > 0 {
        lemma_window_zero(s.subrange(1, s.len() as int), pos + char_width(s[0]) as int, start);
    }
}

/// The characters of `s` outside markup tags, where `in_tag` says whether the
/// walk starts inside a tag: `<` opens a tag, the next `>` closes it, and the
/// characters from `<` to `>` are dropped.
pub open spec fn untagged(s: Seq<char>, in_tag: bool) -> Seq<char>
    decreases s.len(),
{
    if s.len() == 0 {
        Seq::empty()
    } else {
        let c = s[0];
        let rest = s.subrange(1, s.len() as int);
        if in_tag {
            untagged(rest, c != '>')
        } else if c == '<' {
            untagged(rest, true)
        } else {
            seq![c] + untagged(rest, false)
        }
    }
}

/// What remains after removing tags holds no `<`, and text without `<` is
/// left as it is.
pub proof fn law_untagged(s: Seq<char>, in_tag: bool)
    ensures
        !untagged(s, in_tag).contains('<'),
        !in_tag && !s.contains('<') ==> untagged(s, in_tag) == s,
    decreases s.len(),
{
    if s.len() > 0 {
        let c = s[0];
        let rest = s.subrange(1, s.len() as int);
        law_untagged(rest, c != '>');
        law_untagged(rest, true);
        law_untagged(rest, false);
        if !in_tag && c != '<' {
            let t = untagged(rest, false);
            assert forall|i: int| 0 <= i < (seq![c] + t).len() implies (seq![c] + t)[i] != '<' by {
                if i > 0 { assert((seq![c] + t)[i] == t[i - 1]); }
            }
        }
        if !in_tag && !s.contains('<') {
            assert forall|i: int| 0 <= i < rest.len() implies rest[i] != '<' by {
                assert(rest[i] == s[i + 1]);
            }
            assert(c != '<') by { assert(s[0] == c); }
            assert(seq![c] + rest =~= s);
        }
    }
}

/// Removes markup tags from `input`: every `<...>` span is dropped and the
/// text between tags is kept, so `<p>Hello <b>World</b></p>` becomes
/// `Hello World`.
pub fn strip_html_tags(input: &str) -> (r: String)
    ensures
        r@ == untagged(input@, false),
{
    let v = chars_of(input);
    let mut out: Vec<char> = Vec::new();
    let mut in_tag = false;
    let mut i: usize = 0;
    assert(v@.subrange(0, v@.len() as int) == v@);
    assert(out@ + untagged(v@, false) == untagged(v@, false));
    while i < v.len()
        invariant
            i <= v.len(),
            v@ == input@,
            out@ + untagged(v@.subrange(i as int, v@.len() as int), in_tag) == untagged(v@, false),
        decreases v.len() - i,
    {
        let c = v[i];
        proof {
            let t = v@.subrange(i as int, v@.len() as int);
            assert(t[0] == c);
            assert(t.subrange(1, t.len() as int) == v@.subrange(i + 1, v@.len() as int));
        }
        if in_tag {
            if c == '>' {
                in_tag = false;
            }
        } else if c == '<' {
            in_tag = true;
        } else {
            proof {
                assert(out@.push(c) + untagged(v@.subrange(i + 1, v@.len() as int), false) == out@ + (seq![c]
                    + untagged(v@.subrange(i + 1, v@.len() as int), false)));
            }
            out.push(c);
        }
        i = i + 1;
    }
    assert(v@.subrange(i as int, v@.len() as int) == Seq::<char>::empty());
    assert(out@ + Seq::<char>::empty() == out@);
    string_of(out.as_slice())
}

/// The characters that `char::is_whitespace` accepts: the Unicode `White_Space` set.
pub open spec fn is_ws(c: char) -> bool {
    let u = c as u32;
    (0x09 <= u <= 0x0D) || u == 0x20 || u == 0x85 || u == 0xA0 || u == 0x1680 || (0x2000 <= u
        <= 0x200A) || u == 0x2028 || u == 0x2029 || u == 0x202F || u == 0x205F || u == 0x3000
}

fn is_ws_exec(c: char) -> (r: bool)
    ensures
        r == is_ws(c),
{
    let u = c as u32;
    (0x09 <= u && u <= 0x0D) || u == 0x20 || u == 0x85 || u == 0xA0 || u == 0x1680 || (0x2000
        <= u && u <= 0x200A) || u == 0x2028 || u == 0x2029 || u == 0x202F || u == 0x205F || u
        == 0x3000
}

/// Number of leading whitespace characters of `s`.
pub open spec fn lead_ws(s: Seq<char>) -> nat
    decreases s.len(),
{
    if s.len() > 0 && is_ws(s[0]) {
        1 + lead_ws(s.subrange(1, s.len() as int))
    } else {
        0
    }
}

/// Number of trailing whitespace characters of `s`.
pub open spec fn trail_ws(s: Seq<char>) -> nat
    decreases s.len(),
{
    if s.len() > 0 && is_ws(s.last()) {
        1 + trail_ws(s.drop_last())
    } else {
        0
    }
}

/// `s` with leading and trailing whitespace removed, as `str::trim` does.
pub open spec fn trimmed(s: Seq<char>) -> Seq<char> {
    let a = lead_ws(s) as int;
    let rest = s.subrange(a, s.len() as int);
    rest.subrange(0, rest.len() - trail_ws(rest))
}

pub proof fn lemma_lead_ws_bound(s: Seq<char>)
    ensures
        lead_ws(s) <= s.len(),
    decreases s.len(),
{
    if s.len() > 0 && is_ws(s[0]) {
        lemma_lead_ws_bound(s.subrange(1, s.len() as int));
    }
}

pub proof fn lemma_trail_ws_bound(s: Seq<char>)
    ensures
        trail_ws(s) <= s.len(),
    decreases s.len(),
{
    if s.len() > 0 && is_ws(s.last()) {
        lemma_trail_ws_bound(s.drop_last());
    }
}

/// `v` without its leading and trailing whitespace.
pub fn trim_chars(v: &[char]) -> (r: Vec<char>)
    ensures
        r@ == trimmed(v@),
{
    let mut a: usize = 0;
    assert(v@.subrange(0, v@.len() as int) == v@);
    while a < v.len() && is_ws_exec(v[a])
        invariant
            a <= v.len(),
            lead_ws(v@) == a + lead_ws(v@.subrange(a as int, v@.len() as int)),
        decreases v.len() - a,
    {
        proof {
            let t = v@.subrange(a as int, v@.len() as int);
            assert(t.subrange(1, t.len() as int) == v@.subrange(a + 1, v@.len() as int));
        }
        a = a + 1;
    }
    proof {
        if a < v.len() {
            assert(v@.subrange(a as int, v@.len() as int)[0] == v@[a as int]);
        }
    }
    let ghost rest = v@.subrange(a as int, v@.len() as int);
    let mut b: usize = v.len();
    while b > a && is_ws_exec(v[b - 1])
        invariant
            a <= b <= v.len(),
            rest == v@.subrange(a as int, v@.len() as int),
            trail_ws(rest) == (v.len() - b) + trail_ws(v@.subrange(a as int, b as int)),
        decreases b,
    {
        proof {
            let t = v@.subrange(a as int, b as int);
            assert(t.drop_last() == v@.subrange(a as int, b - 1));
            assert(t.last() == v@[b - 1]);
        }
        b = b - 1;
    }
    proof {
        if b > a {
            assert(v@.subrange(a as int, b as int).last() == v@[b - 1]);
        }
        assert(rest.subrange(0, rest.len() - trail_ws(rest)) == v@.subrange(a as int, b as int));
    }
    let mut out: Vec<char> = Vec::new();
    let mut k: usize = a;
    while k < b
        invariant
            a <= k <= b,
            b <= v.len(),
            out@ == v@.subrange(a as int, k as int),
        decreases b - k,
    {
        out.push(v[k]);
        k = k + 1;
        assert(out@ == v@.subrange(a as int, k as int));
    }
    out
}

/// `input` without leading and trailing whitespace.
pub fn trim_str(input: &str) -> (r: String)
    ensures
        r@ == trimmed(input@),
{
    let v = chars_of(input);
    let t = trim_chars(v.as_slice());
    string_of(t.as_slice())
}

} // verus!
