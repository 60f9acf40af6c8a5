//! Decimal and hexadecimal renderings of integers and bytes.

use vstd::prelude::*;

verus! {

/// The ASCII digit for `d` in `0..=9`.
pub open spec fn digit_char(d: int) -> char {
    if d == 0 { '0' } else if d == 1 { '1' } else if d == 2 { '2' } else if d == 3 { '3' }
    else if d == 4 { '4' } else if d == 5 { '5' } else if d == 6 { '6' } else if d == 7 { '7' }
    else if d == 8 { '8' } else { '9' }
}

/// The lowercase hexadecimal digit for `d` in `0..=15`.
pub open spec fn hex_char(d: int) -> char {
    if d < 10 { digit_char(d) } else if d == 10 { 'a' } else if d == 11 { 'b' } else if d == 12 { 'c' }
    else if d == 13 { 'd' } else if d == 14 { 'e' } else { 'f' }
}

/// A hexadecimal digit is `0`-`9` or `a`-`f`.
pub proof fn lemma_hex_char_shape(d: int)
    requires
        0 <= d < 16,
    ensures
        ('0' <= hex_char(d) <= '9') || ('a' <= hex_char(d) <= 'f'),
{
}

/// Decimal rendering of a natural number, without leading zeros.
pub open spec fn dec(n: nat) -> Seq<char>
    decreases n,
{
    if n < 10 {
        seq![digit_char(n as int)]
    } else {
        dec(n / 10) + seq![digit_char((n % 10) as int)]
    }
}

/// Decimal rendering of an integer, with a leading `-` when negative.
pub open spec fn dec_int(n: int) -> Seq<char> {
    if n < 0 {
        seq!['-'] + dec((-n) as nat)
    } else {
        dec(n as nat)
    }
}

/// Lowercase hexadecimal rendering of bytes, two digits per byte.
pub open spec fn hex_lower(b: Seq<u8>) -> Seq<char>
    decreases b.len(),
{
    if b.len() == 0 {
        Seq::empty()
    } else {
        hex_lower(b.drop_last()) + seq![hex_char((b.last() / 16) as int), hex_char((b.last() % 16) as int)]
    }
}

/// The digit character for `d`.
pub fn digit(d: u8) -> (c: char)
    requires
        d < 10,
    ensures
        c == digit_char(d as int),
{
    if d == 0 { '0' } else if d == 1 { '1' } else if d == 2 { '2' } else if d == 3 { '3' }
    else if d == 4 { '4' } else if d == 5 { '5' } else if d == 6 { '6' } else if d == 7 { '7' }
    else if d == 8 { '8' } else { '9' }
}

/// The lowercase hexadecimal digit for `d`.
pub fn hex_digit(d: u8) -> (c: char)
    requires
        d < 16,
    ensures
        c == hex_char(d as int),
{
    if d < 10 { digit(d) } else if d == 10 { 'a' } else if d == 11 { 'b' } else if d == 12 { 'c' }
    else if d == 13 { 'd' } else if d == 14 { 'e' } else { 'f' }
}

/// Appends the decimal rendering of `n` to `out`.
pub fn push_dec(out: &mut Vec<char>, n: u128)
    ensures
        final(out)@ == old(out)@ + dec(n as nat),
    decreases n,
{
    if n >= 10 {
        push_dec(out, n / 10);
    }
    out.push(digit((n % 10) as u8));
    proof {
        if n >= 10 {
            assert(old(out)@ + dec((n / 10) as nat) + seq![digit_char((n % 10) as int)] == old(out)@ + dec(n as nat));
        } else {
            assert(old(out)@.push(digit_char(n as int)) == old(out)@ + dec(n as nat));
        }
    }
}

/// Appends the decimal rendering of the signed `n` to `out`.
pub fn push_dec_i64(out: &mut Vec<char>, n: i64)
    ensures
        final(out)@ == old(out)@ + dec_int(n as int),
{
    if n < 0 {
        out.push('-');
        let m: u128 = (0i128 - (n as i128)) as u128;
        push_dec(out, m);
        assert(old(out)@.push('-') + dec(m as nat) == old(out)@ + (seq!['-'] + dec(m as nat)));
    } else {
        push_dec(out, n as u128);
    }
}

/// Decimal text of `n`.
pub fn dec_chars(n: u128) -> (v: Vec<char>)
    ensures
        v@ == dec(n as nat),
{
    let mut v: Vec<char> = Vec::new();
    push_dec(&mut v, n);
    assert(Seq::<char>::empty() + dec(n as nat) == dec(n as nat));
    v
}

/// Appends the lowercase hexadecimal rendering of `b` to `out`.
pub fn push_hex(out: &mut Vec<char>, b: &[u8])
    ensures
        final(out)@ == old(out)@ + hex_lower(b@),
{
    let mut i: usize = 0;
    while i < b.len()
        invariant
            i <= b.len(),
            out@ == old(out)@ + hex_lower(b@.subrange(0, i as int)),
        decreases b.len() - i,
    {
        let x = b[i];
        out.push(hex_digit(x / 16));
        out.push(hex_digit(x % 16));
        proof {
            let s = b@.subrange(0, i + 1);
            assert(s.drop_last() == b@.subrange(0, i as int));
            assert(s.last() == x);
        }
        i = i + 1;
    }
    assert(b@.subrange(0, b.len() as int) == b@);
}

/// Whether `c` is an ASCII decimal digit.
pub open spec fn is_digit(c: char) -> bool {
    '0' <= c && c <= '9'
}

/// The value of the ASCII digit `c`.
pub open spec fn digit_value(c: char) -> int {
    (c as int) - ('0' as int)
}

/// Whether every character of `s` is a digit.
pub open spec fn all_digits(s: Seq<char>) -> bool {
    forall|i: int| 0 <= i < s.len() ==> is_digit(#[trigger] s[i])
}

/// The number written by the digits `s` (most significant first).
pub open spec fn digits_value(s: Seq<char>) -> int
    decreases s.len(),
{
    if s.len() == 0 {
        0
    } else {
        digits_value(s.drop_last()) * 10 + digit_value(s.last())
    }
}

/// The sign and digits of a signed decimal text: an optional leading `-`
/// or `+`, then the rest.
pub open spec fn sign_split(s: Seq<char>) -> (bool, Seq<char>) {
    if s.len() > 0 && s[0] == '-' {
        (true, s.drop_first())
    } else if s.len() > 0 && s[0] == '+' {
        (false, s.drop_first())
    } else {
        (false, s)
    }
}

/// What `str::parse::<i64>` reads from `s`: an optional sign, then one or
/// more ASCII digits and nothing else, of a value within `i64`.
pub open spec fn spec_parse_i64(s: Seq<char>) -> Option<i64> {
    let (neg, body) = sign_split(s);
    if body.len() == 0 || !all_digits(body) {
        None
    } else {
        let v = if neg { -digits_value(body) } else { digits_value(body) };
        if i64::MIN <= v && v <= i64::MAX {
            Some(v as i64)
        } else {
            None
        }
    }
}

/// Reads a signed decimal integer as `str::parse::<i64>` does.
pub fn parse_i64(s: &str) -> (r: Option<i64>)
    ensures
        r == spec_parse_i64(s@),
{
    let v = crate::chars::chars_of(s);
    let mut neg = false;
    let mut start: usize = 0;
    if v.len() > 0 && v[0] == '-' {
        neg = true;
        start = 1;
    } else if v.len() > 0 && v[0] == '+' {
        start = 1;
    }
    let ghost body = v@.subrange(start as int, v@.len() as int);
    assert(body == sign_split(s@).1);
    if start >= v.len() {
        return None;
    }
    // the magnitude, capped: `over` once it exceeds 2^63
    let bound: u64 = 9223372036854775808;
    let mut acc: u64 = 0;
    let mut over = false;
    let mut i: usize = start;
    while i < v.len()
        invariant
            start <= i <= v.len(),
            v@ == s@,
            body == v@.subrange(start as int, v@.len() as int),
            body == sign_split(s@).1,
            bound == 9223372036854775808u64,
            forall|j: int| start <= j < i ==> is_digit(#[trigger] v@[j]),
            digits_value(v@.subrange(start as int, i as int)) >= 0,
            !over ==> acc == digits_value(v@.subrange(start as int, i as int)) && acc <= bound,
            over ==> digits_value(v@.subrange(start as int, i as int)) > bound,
        decreases v.len() - i,
    {
        let c = v[i];
        if !('0' <= c && c <= '9') {
            assert(body[i - start] == c);
            assert(!is_digit(body[i - start]));
            assert(!all_digits(body));
            return None;
        }
        let d: u64 = ((c as u32) - ('0' as u32)) as u64;
        assert(d <= 9);
        proof {
            let t = v@.subrange(start as int, i + 1);
            assert(t.drop_last() == v@.subrange(start as int, i as int));
            assert(t.last() == c);
            assert(digit_value(c) == d);
        }
        if !over {
            if acc > (bound - d) / 10 {
                over = true;
            } else {
                acc = acc * 10 + d;
            }
        }
        i = i + 1;
    }
    assert(v@.subrange(start as int, v@.len() as int) == body);
    assert(all_digits(body)) by {
        assert forall|j: int| 0 <= j < body.len() implies is_digit(#[trigger] body[j]) by {
            assert(body[j] == v@[start + j]);
        }
    }
    if over {
        return None;
    }
    if neg {
        if acc == bound {
            Some(-9223372036854775807i64 - 1)
        } else {
            Some(0i64 - (acc as i64))
        }
    } else {
        if acc == bound {
            None
        } else {
            Some(acc as i64)
        }
    }
}

/// What `str::parse::<usize>` reads from `s`: an optional `+`, then one or
/// more ASCII digits and nothing else, of a value within `usize`.
pub open spec fn spec_parse_usize(s: Seq<char>) -> Option<usize> {
    let body = if s.len() > 0 && s[0] == '+' { s.drop_first() } else { s };
    if body.len() == 0 || !all_digits(body) {
        None
    } else if digits_value(body) <= usize::MAX {
        Some(digits_value(body) as usize)
    } else {
        None
    }
}

/// The decimal text of `n` is one or more digits whose value is `n`.
pub proof fn lemma_dec_digits(n: nat)
    ensures
        dec(n).len() > 0,
        all_digits(dec(n)),
        digits_value(dec(n)) == n,
    decreases n,
{
    if n < 10 {
        let s = dec(n);
        assert(s.drop_last() =~= Seq::<char>::empty());
        assert(digits_value(s.drop_last()) == 0);
        assert(is_digit(s[0]) && digit_value(s[0]) == n);
    } else {
        lemma_dec_digits(n / 10);
        let s = dec(n);
        let h = dec(n / 10);
        assert(s.drop_last() =~= h);
        assert(s.last() == digit_char((n % 10) as int));
        assert(is_digit(s.last()) && digit_value(s.last()) == n % 10);
        assert forall|i: int| 0 <= i < s.len() implies is_digit(#[trigger] s[i]) by {
            if i < h.len() { assert(s[i] == h[i]); }
        }
    }
}

/// `str::parse::<usize>` reads back the decimal text of a `usize`.
pub proof fn lemma_parse_usize_dec(n: nat)
    requires
        n <= usize::MAX,
    ensures
        spec_parse_usize(dec(n)) == Some(n as usize),
{
    lemma_dec_digits(n);
    assert(dec(n)[0] != '+') by { assert(is_digit(dec(n)[0])); }
}

/// Reads an unsigned decimal integer as `str::parse::<usize>` does.
pub fn parse_usize(s: &str) -> (r: Option<usize>)
    ensures
        r == spec_parse_usize(s@),
{
    let v = crate::chars::chars_of(s);
    let mut start: usize = 0;
    if v.len() > 0 && v[0] == '+' {
        start = 1;
    }
    let ghost body = v@.subrange(start as int, v@.len() as int);
    assert(body == (if s@.len() > 0 && s@[0] == '+' { s@.drop_first() } else { s@ }));
    if start >= v.len() {
        return None;
    }
    let mut acc: usize = 0;
    let mut over = false;
    let mut i: usize = start;
    while i < v.len()
        invariant
            start <= i <= v.len(),
            v@ == s@,
            body == v@.subrange(start as int, v@.len() as int),
            body == (if s@.len() > 0 && s@[0] == '+' { s@.drop_first() } else { s@ }),
            forall|j: int| start <= j < i ==> is_digit(#[trigger] v@[j]),
            digits_value(v@.subrange(start as int, i as int)) >= 0,
            !over ==> acc == digits_value(v@.subrange(start as int, i as int)),
            over ==> digits_value(v@.subrange(start as int, i as int)) > usize::MAX,
        decreases v.len() - i,
    {
        let c = v[i];
        if !('0' <= c && c <= '9') {
            assert(body[i - start] == c);
            assert(!is_digit(body[i - start]));
            assert(!all_digits(body));
            return None;
        }
        let d: usize = ((c as u32) - ('0' as u32)) as usize;
        assert(d <= 9);
        proof {
            let t = v@.subrange(start as int, i + 1);
            assert(t.drop_last() == v@.subrange(start as int, i as int));
            assert(t.last() == c);
            assert(digit_value(c) == d);
        }
        if !over {
            if acc > (usize::MAX - d) / 10 {
                over = true;
            } else {
                acc = acc * 10 + d;
            }
        }
        i = i + 1;
    }
    assert(v@.subrange(start as int, v@.len() as int) == body);
    assert(all_digits(body)) by {
        assert forall|j: int| 0 <= j < body.len() implies is_digit(#[trigger] body[j]) by {
            assert(body[j] == v@[start + j]);
        }
    }
    if over {
        None
    } else {
        Some(acc)
    }
}

} // verus!
