//! Extracting a video's comments from the public web API: the extractor's
//! credentials, the `ttwid` and `webid` values the API wants (from cookies,
//! from the video page's `Set-Cookie` headers or its embedded render data),
//! the random `webid` and `msToken`, the signed page request, and reading
//! the page answer into stored comments.

use vstd::prelude::*;
use rand::Rng;
use crate::chars::{chars_of, string_of, push_str, push_chars, split_char, split_char_exec, has_prefix, occurs_at,
    first_occurrence_from, find_from, starts_with_lit};
use crate::text::{trimmed, trim_chars};
use crate::json::{JsonValue, JsonTree, parse_json, spec_parse_json, trees};
use crate::model::{PlatformError, LocalDataItem, local_view, or_empty};
use crate::account_params::{AccountParams, params_of_text, local_data_items};
use crate::numfmt::{dec_int, push_dec_i64};
use crate::douyin_auth::new_uuid;
use crate::douyin_utils::{calculate_a_bogus, placeholder_text};
use crate::signature_v4::keys_distinct;

verus! {

// ---------------------------------------------------------------------------
// Stored comments
// ---------------------------------------------------------------------------

/// The processing state of a stored comment.
#[derive(PartialEq, Eq, Structural, Clone, Copy, Debug)]
pub enum CommentStatus {
    Pending,
    Completed,
    Failed,
}

/// A comment as it is stored.
pub struct Comment {
    pub id: String,
    pub account_id: String,
    pub aweme_id: String,
    pub comment_id: String,
    pub user_id: String,
    pub user_nickname: String,
    pub user_avatar: String,
    pub content: String,
    pub like_count: i64,
    pub reply_count: i64,
    pub create_time: String,
    pub status: CommentStatus,
    pub created_at: String,
}

/// The outcome of extracting one page of comments.
pub struct CommentExtractResult {
    pub success: bool,
    pub total_extracted: i64,
    pub total_in_aweme: i64,
    pub comments: Vec<Comment>,
    pub error_message: Option<String>,
}

/// Extracts comments with one account's credentials.
pub struct DouyinCommentExtractor {
    pub cookie: String,
    pub user_agent: String,
    pub third_id: String,
    pub local_data: Vec<LocalDataItem>,
}

/// The most comments asked for at once.
pub open spec fn max_comments() -> i64 {
    500
}

impl DouyinCommentExtractor {
    /// An extractor with the given credentials.
    pub fn new(cookie: String, user_agent: String, third_id: String, local_data: Vec<LocalDataItem>) -> (r: Self)
        ensures
            r.cookie == cookie && r.user_agent == user_agent && r.third_id == third_id && r.local_data == local_data,
    {
        DouyinCommentExtractor { cookie, user_agent, third_id, local_data }
    }

    /// An extractor from an account's stored parameters, which must hold a
    /// cookie and a user agent.
    pub fn from_params(params_json: &str) -> (r: Result<Self, PlatformError>)
        ensures
            exists|a: AccountParams| #[trigger] params_of_text(params_json@, a) && {
                let cookie = match a.third_param { Some(p) => or_empty(p.cookie), None => Seq::empty() };
                let ua = match a.third_param { Some(p) => or_empty(p.user_agent), None => Seq::empty() };
                if cookie.len() == 0 || ua.len() == 0 {
                    r matches Err(PlatformError::InvalidCredentials(m)) && m@ == "账号参数不完整，缺少cookie或user_agent"@
                } else {
                    r matches Ok(x) && x.cookie@ == cookie && x.user_agent@ == ua && x.third_id@ == or_empty(a.third_id)
                        && local_view(x.local_data@) == match a.third_param {
                            Some(p) => match p.local_data { Some(v) => local_data_items(v@), None => Seq::empty() },
                            None => Seq::empty(),
                        }
                }
            },
    {
        let a = AccountParams::from_json(params_json);
        let cookie = a.get_cookie();
        let user_agent = a.get_user_agent();
        let third_id = a.get_third_id();
        if cookie.as_str().is_empty() || user_agent.as_str().is_empty() {
            return Err(PlatformError::InvalidCredentials(String::from_str("账号参数不完整，缺少cookie或user_agent")));
        }
        let local_data = a.get_local_data();
        Ok(Self::new(cookie, user_agent, third_id, local_data))
    }

    /// The count and cursor of a page request: the count kept between 1 and
    /// the maximum, the cursor not negative.
    pub fn page_bounds(count: i64, cursor: i64) -> (r: (i64, i64))
        ensures
            r.0 == (if count > max_comments() { max_comments() } else if count < 1 { 1 } else { count }),
            r.1 == (if cursor < 0 { 0 } else { cursor }),
    {
        let c = if count > 500 { 500 } else { count };
        let c = if c < 1 { 1 } else { c };
        let k = if cursor < 0 { 0 } else { cursor };
        (c, k)
    }
}

// ---------------------------------------------------------------------------
// Random values
// ---------------------------------------------------------------------------

/// A random number below `n` from the thread's random generator
/// (`rand::Rng::gen_range(0..n)`).
///
/// Trusted: random; the value is below `n`. The range must not be empty.
#[verifier::external_body]
fn random_below(n: usize) -> (r: usize)
    requires
        n > 0,
    ensures
        r < n,
{
    rand::thread_rng().gen_range(0..n)
}

/// Whether a character is an ASCII digit.
pub open spec fn is_ascii_digit(c: char) -> bool {
    '0' <= c <= '9'
}

/// A random `webid`: nineteen random digits.
pub fn generate_webid() -> (r: String)
    ensures
        r@.len() == 19,
        forall|i: int| 0 <= i < 19 ==> is_ascii_digit(#[trigger] r@[i]),
{
    let digits = chars_of("0123456789");
    proof { reveal_strlit("0123456789"); }
    assert(digits@.len() == 10);
    assert(forall|j: int| 0 <= j < 10 ==> is_ascii_digit(#[trigger] digits@[j]));
    let mut out: Vec<char> = Vec::new();
    let mut i: usize = 0;
    while i < 19
        invariant
            i <= 19,
            digits@.len() == 10,
            forall|j: int| 0 <= j < 10 ==> is_ascii_digit(#[trigger] digits@[j]),
            out@.len() == i,
            forall|j: int| 0 <= j < i ==> is_ascii_digit(#[trigger] out@[j]),
        decreases 19 - i,
    {
        let d = random_below(10);
        let c = digits[d];
        assert(is_ascii_digit(digits@[d as int]));
        out.push(c);
        i = i + 1;
    }
    string_of(out.as_slice())
}

/// The characters an `msToken` is made of.
pub open spec fn ms_token_alphabet() -> Seq<char> {
    "ABCDEFGHIJKLMNOPQRSTUVWXYZabcdefghijklmnopqrstuvwxyz0123456789="@
}

/// A random `msToken`: 107 characters of its alphabet.
pub fn generate_ms_token() -> (r: String)
    ensures
        r@.len() == 107,
        forall|i: int| 0 <= i < 107 ==> ms_token_alphabet().contains(#[trigger] r@[i]),
{
    let alphabet = chars_of("ABCDEFGHIJKLMNOPQRSTUVWXYZabcdefghijklmnopqrstuvwxyz0123456789=");
    proof { reveal_strlit("ABCDEFGHIJKLMNOPQRSTUVWXYZabcdefghijklmnopqrstuvwxyz0123456789="); }
    let mut out: Vec<char> = Vec::new();
    let mut i: usize = 0;
    while i < 107
        invariant
            i <= 107,
            alphabet@ == ms_token_alphabet(),
            alphabet@.len() == 63,
            out@.len() == i,
            forall|j: int| 0 <= j < i ==> ms_token_alphabet().contains(#[trigger] out@[j]),
        decreases 107 - i,
    {
        let k = random_below(alphabet.len());
        let c = alphabet[k];
        assert(alphabet@[k as int] == c);
        out.push(c);
        i = i + 1;
    }
    string_of(out.as_slice())
}

// ---------------------------------------------------------------------------
// ttwid and webid
// ---------------------------------------------------------------------------

/// The value of the last cookie item (of `;`-separated items, trimmed)
/// that starts with `prefix` (`name=`), or the empty text.
pub open spec fn last_cookie_value(items: Seq<Seq<char>>, prefix: Seq<char>) -> Seq<char>
    decreases items.len(),
{
    if items.len() == 0 {
        Seq::empty()
    } else {
        let t = trimmed(items.last());
        if has_prefix(t, prefix) {
            t.subrange(prefix.len() as int, t.len() as int)
        } else {
            last_cookie_value(items.drop_last(), prefix)
        }
    }
}

/// The value of the first cookie item starting with `prefix`, scanning from
/// `i` up: helper computing the last one going down.
fn last_value(items: &Vec<Vec<char>>, prefix: &str) -> (r: String)
    ensures
        r@ == last_cookie_value(items@.map_values(|x: Vec<char>| x@), prefix@),
{
    let ghost its = items@.map_values(|x: Vec<char>| x@);
    let p = chars_of(prefix);
    let mut i: usize = items.len();
    assert(its.subrange(0, items.len() as int) == its);
    while i > 0
        invariant
            i <= items.len(),
            its == items@.map_values(|x: Vec<char>| x@),
            p@ == prefix@,
            last_cookie_value(its, prefix@) == last_cookie_value(its.subrange(0, i as int), prefix@),
        decreases i,
    {
        let t = trim_chars(items[i - 1].as_slice());
        proof {
            let q = its.subrange(0, i as int);
            assert(q.drop_last() == its.subrange(0, i - 1));
            assert(q.last() == items@[i - 1]@);
        }
        if crate::chars::matches_at(t.as_slice(), p.as_slice(), 0) {
            let mut rest: Vec<char> = Vec::new();
            let mut k: usize = p.len();
            while k < t.len()
                invariant
                    p.len() <= k <= t.len(),
                    rest@ == t@.subrange(p.len() as int, k as int),
                decreases t.len() - k,
            {
                rest.push(t[k]);
                k = k + 1;
                assert(rest@ =~= t@.subrange(p.len() as int, k as int));
            }
            return string_of(rest.as_slice());
        }
        i = i - 1;
    }
    String::new()
}

/// Whether a text has a character that is not an ASCII digit.
pub open spec fn has_non_digit(s: Seq<char>) -> bool {
    exists|i: int| 0 <= i < s.len() && !is_ascii_digit(#[trigger] s[i])
}

impl DouyinCommentExtractor {
    /// The `ttwid` and `webid` in the account's cookie (the last item of
    /// each name). A `webid` with a non-digit character is replaced by a
    /// random one.
    pub fn parse_cookies_from_db(&self) -> (r: (String, String))
        ensures
            r.0@ == last_cookie_value(split_char(self.cookie@, ';'), "ttwid="@),
            ({
                let w = last_cookie_value(split_char(self.cookie@, ';'), "webid="@);
                if has_non_digit(w) {
                    r.1@.len() == 19 && !has_non_digit(r.1@)
                } else {
                    r.1@ == w
                }
            }),
    {
        let c = chars_of(self.cookie.as_str());
        let items = split_char_exec(c.as_slice(), ';');
        let ttwid = last_value(&items, "ttwid=");
        let webid = last_value(&items, "webid=");
        let w = chars_of(webid.as_str());
        let mut i: usize = 0;
        let mut bad = false;
        while i < w.len()
            invariant
                i <= w.len(),
                bad == exists|j: int| 0 <= j < i && !is_ascii_digit(#[trigger] w@[j]),
            decreases w.len() - i,
        {
            if !('0' <= w[i] && w[i] <= '9') {
                bad = true;
            }
            i = i + 1;
        }
        if bad {
            let g = generate_webid();
            assert(!has_non_digit(g@));
            (ttwid, g)
        } else {
            (ttwid, webid)
        }
    }
}

/// The value of the cookie `name` set by a `Set-Cookie` value: the text
/// after `name=` up to the first `;`, when the value starts with `name=`.
pub open spec fn set_cookie_value(v: Seq<char>, name: Seq<char>) -> Option<Seq<char>> {
    let p = name + "="@;
    if has_prefix(v, p) {
        let after = v.subrange(p.len() as int, v.len() as int);
        match first_occurrence_from(after, ";"@, 0) {
            Some(k) => Some(after.subrange(0, k)),
            None => Some(after),
        }
    } else {
        None
    }
}

/// The value of the first `Set-Cookie` header (of `values`) that sets `name`.
pub open spec fn first_set_cookie(values: Seq<Seq<char>>, name: Seq<char>) -> Option<Seq<char>>
    decreases values.len(),
{
    if values.len() == 0 {
        None
    } else {
        match set_cookie_value(values[0], name) {
            Some(x) => Some(x),
            None => first_set_cookie(values.drop_first(), name),
        }
    }
}

fn set_cookie_exec(v: &str, name: &str) -> (r: Option<String>)
    ensures
        crate::model::opt_str(r) == set_cookie_value(v@, name@),
{
    let p = String::from_str(name).concat("=");
    let vc = chars_of(v);
    let pc = chars_of(p.as_str());
    if !crate::chars::matches_at(vc.as_slice(), pc.as_slice(), 0) {
        return None;
    }
    let mut after: Vec<char> = Vec::new();
    let mut k: usize = pc.len();
    while k < vc.len()
        invariant
            pc.len() <= k <= vc.len(),
            after@ == vc@.subrange(pc.len() as int, k as int),
        decreases vc.len() - k,
    {
        after.push(vc[k]);
        k = k + 1;
        assert(after@ =~= vc@.subrange(pc.len() as int, k as int));
    }
    let semi = chars_of(";");
    match find_from(after.as_slice(), semi.as_slice(), 0) {
        Some(e) => {
            let mut head: Vec<char> = Vec::new();
            let mut j: usize = 0;
            while j < e
                invariant
                    j <= e <= after.len(),
                    head@ == after@.subrange(0, j as int),
                decreases e - j,
            {
                head.push(after[j]);
                j = j + 1;
                assert(head@ =~= after@.subrange(0, j as int));
            }
            Some(string_of(head.as_slice()))
        },
        None => Some(string_of(after.as_slice())),
    }
}

impl DouyinCommentExtractor {
    /// The value of cookie `name` from the video page's `Set-Cookie` header
    /// values; when none sets it, a new random UUID for `ttwid`, else empty.
    pub fn extract_cookie_from_headers(&self, set_cookies: &Vec<String>, name: &str) -> (r: String)
        ensures
            match first_set_cookie(set_cookies@.map_values(|s: String| s@), name@) {
                Some(x) => r@ == x,
                None => name@ != "ttwid"@ ==> r@.len() == 0,
            },
    {
        let ghost vs = set_cookies@.map_values(|s: String| s@);
        let mut i: usize = 0;
        assert(vs.subrange(0, vs.len() as int) == vs);
        while i < set_cookies.len()
            invariant
                i <= set_cookies.len(),
                vs == set_cookies@.map_values(|s: String| s@),
                first_set_cookie(vs, name@) == first_set_cookie(vs.subrange(i as int, vs.len() as int), name@),
            decreases set_cookies.len() - i,
        {
            proof {
                let q = vs.subrange(i as int, vs.len() as int);
                assert(q[0] == set_cookies@[i as int]@);
                assert(q.drop_first() == vs.subrange(i + 1, vs.len() as int));
            }
            match set_cookie_exec(set_cookies[i].as_str(), name) {
                Some(x) => { return x; },
                None => {},
            }
            i = i + 1;
        }
        assert(vs.subrange(i as int, vs.len() as int).len() == 0);
        if crate::chars::str_eq(name, "ttwid") { new_uuid() } else { String::new() }
    }
}

// ---------------------------------------------------------------------------
// The video page's render data
// ---------------------------------------------------------------------------

/// The tag that opens the render data.
pub open spec fn render_data_open() -> Seq<char> {
    "<script id=\"RENDER_DATA\" type=\"application/json\">"@
}

/// The position of the first `<` at or after `from`, or the end.
pub open spec fn next_lt(h: Seq<char>, from: int) -> int {
    match first_occurrence_from(h, "<"@, from) {
        Some(k) => k,
        None => h.len() as int,
    }
}

/// Whether the render data pattern (the opening tag, one or more
/// characters other than `<`, then `</script>`) matches at `i`.
pub open spec fn render_data_at(h: Seq<char>, i: int) -> bool {
    let j = i + render_data_open().len();
    &&& occurs_at(h, render_data_open(), i)
    &&& next_lt(h, j) > j
    &&& occurs_at(h, "</script>"@, next_lt(h, j))
}

/// The content of the first render data element, as the pattern
/// `<script id="RENDER_DATA" type="application/json">([^<]+)</script>`
/// captures it.
pub open spec fn render_data_capture(h: Seq<char>) -> Option<Seq<char>> {
    if exists|i: int| render_data_at(h, i) {
        let i = choose|i: int| render_data_at(h, i) && forall|k: int| 0 <= k < i ==> !render_data_at(h, k);
        let j = i + render_data_open().len();
        Some(h.subrange(j, next_lt(h, j)))
    } else {
        None
    }
}

/// Finds the render data with the `regex` crate.
///
/// Trusted: the pattern is valid; the first match's capture is the text
/// that `render_data_capture` describes (the leftmost match; the greedy
/// class cannot cross a `<`, so it ends at the first `<` after the tag).
#[verifier::external_body]
fn render_data(html: &str) -> (r: Option<String>)
    ensures
        crate::model::opt_str(r) == render_data_capture(html@),
{
    let re = regex::Regex::new(r#"<script id="RENDER_DATA" type="application/json">([^<]+)</script>"#).unwrap();
    match re.captures(html) {
        Some(caps) => match caps.get(1) {
            Some(m) => Some(m.as_str().to_string()),
            None => None,
        },
        None => None,
    }
}

/// The text of `s` percent-decoded, with byte sequences that are not UTF-8
/// replaced, as `percent_decode_str(s).decode_utf8_lossy()` gives it.
pub uninterp spec fn spec_percent_decode_lossy(s: Seq<char>) -> Seq<char>;

/// Percent-decodes with the `percent-encoding` crate, then reads the bytes
/// as UTF-8 replacing what is not.
///
/// Trusted: the result is a function of the text, named
/// `spec_percent_decode_lossy`.
#[verifier::external_body]
fn percent_decode_lossy(s: &str) -> (r: String)
    ensures
        r@ == spec_percent_decode_lossy(s@),
{
    percent_encoding::percent_decode_str(s).decode_utf8_lossy().to_string()
}

/// The text from `start` to the next double quote, if there is one.
pub open spec fn quoted_from(d: Seq<char>, start: int) -> Option<Seq<char>> {
    match first_occurrence_from(d, "\""@, start) {
        Some(e) => Some(d.subrange(start, e)),
        None => None,
    }
}

/// The user id written in decoded render data: after the first
/// `"user_unique_id":"` up to the next quote; else after the first
/// `user_unique_id` when `:"` follows it; else empty.
pub open spec fn webid_in(d: Seq<char>) -> Seq<char> {
    let p1 = "\"user_unique_id\":\""@;
    let first = match first_occurrence_from(d, p1, 0) {
        Some(s) => quoted_from(d, s + p1.len()),
        None => None,
    };
    match first {
        Some(w) => w,
        None => match first_occurrence_from(d, "user_unique_id"@, 0) {
            Some(s) => if occurs_at(d, ":\""@, s + 14) {
                match quoted_from(d, s + 16) { Some(w) => w, None => Seq::empty() }
            } else {
                Seq::empty()
            },
            None => Seq::empty(),
        },
    }
}

/// The user id in a video page: from its render data, else empty.
pub open spec fn webid_from_html(html: Seq<char>) -> Seq<char> {
    match render_data_capture(html) {
        Some(c) => webid_in(spec_percent_decode_lossy(c)),
        None => Seq::empty(),
    }
}

fn slice_chars(v: &Vec<char>, a: usize, b: usize) -> (r: String)
    requires
        a <= b <= v.len(),
    ensures
        r@ == v@.subrange(a as int, b as int),
{
    let mut out: Vec<char> = Vec::new();
    let mut k: usize = a;
    while k < b
        invariant
            a <= k <= b <= v.len(),
            out@ == v@.subrange(a as int, k as int),
        decreases b - k,
    {
        out.push(v[k]);
        k = k + 1;
        assert(out@ =~= v@.subrange(a as int, k as int));
    }
    string_of(out.as_slice())
}

fn quoted_from_exec(d: &Vec<char>, start: usize) -> (r: Option<String>)
    requires
        start <= d.len(),
    ensures
        crate::model::opt_str(r) == quoted_from(d@, start as int),
{
    let q = chars_of("\"");
    match find_from(d.as_slice(), q.as_slice(), start) {
        Some(e) => {
            proof {
                assert(first_occurrence_from(d@, "\""@, start as int) == Some(e as int)) by {
                    let i = choose|i: int| start <= i && occurs_at(d@, "\""@, i)
                        && forall|k: int| start <= k < i ==> !occurs_at(d@, "\""@, k);
                    if i < e { } else if i > e { }
                }
            }
            Some(slice_chars(d, start, e))
        },
        None => None,
    }
}

fn first_from(s: &Vec<char>, p: &[char], from: usize) -> (r: Option<usize>)
    ensures
        match r {
            Some(i) => first_occurrence_from(s@, p@, from as int) == Some(i as int) && i + p@.len() <= s@.len(),
            None => first_occurrence_from(s@, p@, from as int) is None,
        },
{
    match find_from(s.as_slice(), p, from) {
        Some(i) => {
            proof {
                let j = choose|j: int| from <= j && occurs_at(s@, p@, j)
                    && forall|k: int| from <= k < j ==> !occurs_at(s@, p@, k);
                if j < i { } else if j > i { }
            }
            Some(i)
        },
        None => None,
    }
}

fn webid_second(d: &Vec<char>) -> (r: String)
    ensures
        r@ == match first_occurrence_from(d@, "user_unique_id"@, 0) {
            Some(s) => if occurs_at(d@, ":\""@, s + 14) {
                match quoted_from(d@, s + 16) { Some(w) => w, None => Seq::empty() }
            } else {
                Seq::empty()
            },
            None => Seq::empty(),
        },
{
    let p2 = chars_of("user_unique_id");
    let colon = chars_of(":\"");
    proof { reveal_strlit("user_unique_id"); reveal_strlit(":\""); }
    assert(p2@.len() == 14);
    assert(colon@.len() == 2);
    let n = d.len();
    match first_from(d, p2.as_slice(), 0) {
        Some(s) => {
            assert(s + 14 <= n);
            if crate::chars::matches_at(d.as_slice(), colon.as_slice(), s + 14) {
                assert(s + 16 <= n);
                match quoted_from_exec(d, s + 16) {
                    Some(w) => w,
                    None => String::new(),
                }
            } else {
                String::new()
            }
        },
        None => String::new(),
    }
}

fn webid_first(d: &Vec<char>) -> (r: Option<String>)
    ensures
        crate::model::opt_str(r) == match first_occurrence_from(d@, "\"user_unique_id\":\""@, 0) {
            Some(s) => quoted_from(d@, s + "\"user_unique_id\":\""@.len()),
            None => None,
        },
{
    let p1 = chars_of("\"user_unique_id\":\"");
    let n = d.len();
    match first_from(d, p1.as_slice(), 0) {
        Some(s) => {
            assert(s + p1.len() <= n);
            quoted_from_exec(d, s + p1.len())
        },
        None => None,
    }
}

fn webid_in_exec(d: &Vec<char>) -> (r: String)
    ensures
        r@ == webid_in(d@),
{
    match webid_first(d) {
        Some(w) => w,
        None => webid_second(d),
    }
}

impl DouyinCommentExtractor {
    /// The user id in a video page's render data (empty when none).
    pub fn extract_webid_from_html(&self, html: &str) -> (r: String)
        ensures
            r@ == webid_from_html(html@),
    {
        let cap = match render_data(html) {
            Some(c) => c,
            None => { return String::new(); },
        };
        let decoded = percent_decode_lossy(cap.as_str());
        let d = chars_of(decoded.as_str());
        webid_in_exec(&d)
    }

    /// The `ttwid` and `webid` to use: those read from the video page, or
    /// when that failed those in the account's cookie.
    pub fn choose_ttwid_webid(&self, fetched: Result<(String, String), String>) -> (r: (String, String))
        ensures
            fetched matches Ok(p) ==> r == p,
            fetched is Err ==> r.0@ == last_cookie_value(split_char(self.cookie@, ';'), "ttwid="@),
    {
        match fetched {
            Ok(p) => p,
            Err(_) => self.parse_cookies_from_db(),
        }
    }

    /// The `ttwid` and `webid` from the video page: the cookies it sets
    /// (`ttwid` generated when not set), the `webid` from its render data
    /// when not set; a page without any `webid` is refused with `未找到webid`.
    pub fn ttwid_webid_from_page(&self, set_cookies: &Vec<String>, html: &str) -> (r: Result<(String, String), String>)
        ensures
            ({
                let vs = set_cookies@.map_values(|s: String| s@);
                let w0 = match first_set_cookie(vs, "webid"@) { Some(x) => x, None => Seq::empty() };
                let w = if w0.len() == 0 { webid_from_html(html@) } else { w0 };
                if w.len() == 0 {
                    r matches Err(e) && e@ == "未找到webid"@
                } else {
                    r matches Ok(p) && p.1@ == w
                        && (first_set_cookie(vs, "ttwid"@) matches Some(t) ==> p.0@ == t)
                }
            }),
    {
        let ttwid = self.extract_cookie_from_headers(set_cookies, "ttwid");
        let webid = self.webid_from_headers(set_cookies);
        let webid = if webid.as_str().is_empty() { self.extract_webid_from_html(html) } else { webid };
        if webid.as_str().is_empty() {
            return Err(String::from_str("未找到webid"));
        }
        Ok((ttwid, webid))
    }

    fn webid_from_headers(&self, set_cookies: &Vec<String>) -> (r: String)
        ensures
            r@ == match first_set_cookie(set_cookies@.map_values(|s: String| s@), "webid"@) {
                Some(x) => x, None => Seq::empty() },
    {
        proof { reveal_strlit("ttwid"); reveal_strlit("webid"); }
        assert("webid"@ != "ttwid"@) by { assert("webid"@[0] != "ttwid"@[0]); }
        self.extract_cookie_from_headers(set_cookies, "webid")
    }
}

// ---------------------------------------------------------------------------
// The page request
// ---------------------------------------------------------------------------

/// The address of the video page (also the page request's referer).
pub open spec fn video_page_url(aweme_id: Seq<char>) -> Seq<char> {
    "https://www.douyin.com/jingxuan?modal_id="@ + aweme_id
}

/// The video page's address.
pub fn video_page(aweme_id: &str) -> (r: String)
    ensures
        r@ == video_page_url(aweme_id@),
{
    String::from_str("https://www.douyin.com/jingxuan?modal_id=").concat(aweme_id)
}

/// The unsigned address of a comment page request.
pub open spec fn comments_page_url(aweme_id: Seq<char>, cursor: i64, count: i64, webid: Seq<char>, ms_token: Seq<char>)
    -> Seq<char> {
    "https://www.douyin.com/aweme/v1/web/comment/list/?device_platform=webapp&aid=6383&channel=channel_pc_web&aweme_id="@ + aweme_id + "&cursor="@ + dec_int(cursor as int) + "&count="@ + dec_int(count as int)
        + "&item_type=0&insert_ids=&whale_cut_token=&cut_version=1&rcFT=&update_version_code=170400&pc_client_type=1&version_code=170400&version_name=17.4.0&cookie_enabled=true&screen_width=1920&screen_height=1080&browser_language=zh-CN&browser_platform=Win32&browser_name=Chrome&browser_version=123.0.0.0&browser_online=true&engine_name=Blink&engine_version=123.0.0.0&os_name=Windows&os_version=10&cpu_core_num=16&device_memory=8&platform=PC&downlink=10&effective_type=4g&round_trip_time=50&webid="@ + webid + "&verifyFp=verify_lwg2oa43_Ga6DRjOO_v2cd_4NL7_AHTp_qMKyKlDdoqra&fp=verify_lwg2oa43_Ga6DRjOO_v2cd_4NL7_AHTp_qMKyKlDdoqra&msToken="@ + ms_token
}

/// The unsigned address of a comment page request.
pub fn comments_page(aweme_id: &str, cursor: i64, count: i64, webid: &str, ms_token: &str) -> (r: String)
    ensures
        r@ == comments_page_url(aweme_id@, cursor, count, webid@, ms_token@),
{
    let mut out: Vec<char> = Vec::new();
    push_str(&mut out, "https://www.douyin.com/aweme/v1/web/comment/list/?device_platform=webapp&aid=6383&channel=channel_pc_web&aweme_id=");
    push_str(&mut out, aweme_id);
    push_str(&mut out, "&cursor=");
    push_dec_i64(&mut out, cursor);
    push_str(&mut out, "&count=");
    push_dec_i64(&mut out, count);
    push_str(&mut out, "&item_type=0&insert_ids=&whale_cut_token=&cut_version=1&rcFT=&update_version_code=170400&pc_client_type=1&version_code=170400&version_name=17.4.0&cookie_enabled=true&screen_width=1920&screen_height=1080&browser_language=zh-CN&browser_platform=Win32&browser_name=Chrome&browser_version=123.0.0.0&browser_online=true&engine_name=Blink&engine_version=123.0.0.0&os_name=Windows&os_version=10&cpu_core_num=16&device_memory=8&platform=PC&downlink=10&effective_type=4g&round_trip_time=50&webid=");
    push_str(&mut out, webid);
    push_str(&mut out, "&verifyFp=verify_lwg2oa43_Ga6DRjOO_v2cd_4NL7_AHTp_qMKyKlDdoqra&fp=verify_lwg2oa43_Ga6DRjOO_v2cd_4NL7_AHTp_qMKyKlDdoqra&msToken=");
    push_str(&mut out, ms_token);
    assert(out@ =~= comments_page_url(aweme_id@, cursor, count, webid@, ms_token@));
    string_of(out.as_slice())
}

/// The query of an address: after its first `?`, or the whole address.
pub open spec fn url_query(url: Seq<char>) -> Seq<char> {
    match first_occurrence_from(url, "?"@, 0) {
        Some(p) => url.subrange(p + 1, url.len() as int),
        None => url,
    }
}

impl DouyinCommentExtractor {
    /// The signed address: the address with `&a_bogus=` and the signature
    /// of its query (`calculate_a_bogus` with the signature script
    /// `js_code`, which gives the placeholder signature).
    pub fn sign_url(&self, url: &str, js_code: Option<&str>) -> (r: String)
        ensures
            r@ == url@ + "&a_bogus="@ + placeholder_text(url_query(url@), self.user_agent@),
    {
        let u = chars_of(url);
        let q = chars_of("?");
        proof { reveal_strlit("?"); }
        let query = match first_from(&u, q.as_slice(), 0) {
            Some(p) => slice_chars(&u, p + 1, u.len()),
            None => String::from_str(url),
        };
        let sig = calculate_a_bogus(false, js_code, query.as_str(), self.user_agent.as_str());
        let r = String::from_str(url).concat("&a_bogus=").concat(sig.as_str());
        assert(r@ == url@ + "&a_bogus="@ + sig@);
        r
    }

    /// The headers of a comment page request.
    pub fn page_headers(&self, aweme_id: &str, ttwid: &str) -> (r: Vec<(String, String)>)
        ensures
            r@.map_values(|p: (String, String)| (p.0@, p.1@)) == page_header_pairs(self.user_agent@, aweme_id@, ttwid@),
            keys_distinct(r@.map_values(|p: (String, String)| (p.0@, p.1@))),
    {
        let mut v: Vec<(String, String)> = Vec::new();
        v.push((String::from_str("sec-ch-ua"), String::from_str("\"Google Chrome\";v=\"123\", \"Not:A-Brand\";v=\"8\", \"Chromium\";v=\"123\"")));
        v.push((String::from_str("Accept"), String::from_str("application/json, text/plain, */*")));
        v.push((String::from_str("sec-ch-ua-mobile"), String::from_str("?0")));
        v.push((String::from_str("User-Agent"), self.user_agent.clone()));
        v.push((String::from_str("sec-ch-ua-platform"), String::from_str("\"Windows\"")));
        v.push((String::from_str("Sec-Fetch-Site"), String::from_str("same-origin")));
        v.push((String::from_str("Sec-Fetch-Mode"), String::from_str("cors")));
        v.push((String::from_str("Sec-Fetch-Dest"), String::from_str("empty")));
        v.push((String::from_str("Accept-Language"), String::from_str("zh-CN,zh;q=0.9,en;q=0.8")));
        v.push((String::from_str("Referer"), video_page(aweme_id)));
        v.push((String::from_str("Cookie"), String::from_str("ttwid=").concat(ttwid).concat(";")));
        assert(v@.map_values(|p: (String, String)| (p.0@, p.1@)) =~= page_header_pairs(self.user_agent@, aweme_id@, ttwid@));
        proof { lemma_page_header_keys(self.user_agent@, aweme_id@, ttwid@); }
        v
    }
}

/// The headers of a comment page request, in order.
pub open spec fn page_header_pairs(user_agent: Seq<char>, aweme_id: Seq<char>, ttwid: Seq<char>) -> Seq<(Seq<char>, Seq<char>)> {
    seq![
        ("sec-ch-ua"@, "\"Google Chrome\";v=\"123\", \"Not:A-Brand\";v=\"8\", \"Chromium\";v=\"123\""@),
        ("Accept"@, "application/json, text/plain, */*"@),
        ("sec-ch-ua-mobile"@, "?0"@),
        ("User-Agent"@, user_agent),
        ("sec-ch-ua-platform"@, "\"Windows\""@),
        ("Sec-Fetch-Site"@, "same-origin"@),
        ("Sec-Fetch-Mode"@, "cors"@),
        ("Sec-Fetch-Dest"@, "empty"@),
        ("Accept-Language"@, "zh-CN,zh;q=0.9,en;q=0.8"@),
        ("Referer"@, video_page_url(aweme_id)),
        ("Cookie"@, "ttwid="@ + ttwid + ";"@),
    ]
}

// ---------------------------------------------------------------------------
// The page answer
// ---------------------------------------------------------------------------

/// One page of the comment API's answer: the work's total and the records.
pub struct PageResult {
    pub total: i64,
    pub comments: Vec<JsonValue>,
}

/// The member `k` as an `i64`, or the default.
pub open spec fn i64_or(t: JsonTree, k: Seq<char>, d: i64) -> i64 {
    match t.get_i64(k) {
        Some(i) => i,
        None => d,
    }
}

/// Reads the answer text of a comment page. Empty text is refused with
/// `响应为空`, text that is not JSON with `解析JSON失败: <reason>`, an answer
/// whose `status_code` (-1 when missing) is not 0 with
/// `API错误: <status_msg or 未知错误> (code: <code>)`; otherwise the total
/// (0 when missing) and the `comments` records (none when missing).
pub fn parse_page_answer(text: &str) -> (r: Result<PageResult, String>)
    ensures
        text@.len() == 0 ==> (r matches Err(e) && e@ == "响应为空"@),
        text@.len() > 0 ==> match spec_parse_json(text@) {
            Err(m) => r matches Err(e) && e@ == "解析JSON失败: "@ + m,
            Ok(t) => {
                let code = i64_or(t, "status_code"@, -1i64);
                if code != 0 {
                    r matches Err(e) && e@ == "API错误: "@ + (match t.get_str("status_msg"@) { Some(m) => m, None => "未知错误"@ })
                        + " (code: "@ + dec_int(code as int) + ")"@
                } else {
                    r matches Ok(p) && p.total == i64_or(t, "total"@, 0)
                        && trees(p.comments@) == match t.get("comments"@) {
                            Some(c) => match c.as_array() { Some(a) => a, None => Seq::empty() },
                            None => Seq::empty(),
                        }
                }
            },
        },
{
    if text.is_empty() {
        return Err(String::from_str("响应为空"));
    }
    let v = match parse_json(text) {
        Ok(v) => v,
        Err(m) => { return Err(String::from_str("解析JSON失败: ").concat(m.as_str())); },
    };
    let code = match v.get_i64("status_code") { Some(c) => c, None => -1 };
    if code != 0 {
        let msg = match v.get_str("status_msg") { Some(m) => m, None => String::from_str("未知错误") };
        let mut out: Vec<char> = Vec::new();
        push_str(&mut out, "API错误: ");
        push_str(&mut out, msg.as_str());
        push_str(&mut out, " (code: ");
        push_dec_i64(&mut out, code);
        push_str(&mut out, ")");
        return Err(string_of(out.as_slice()));
    }
    let total = match v.get_i64("total") { Some(t) => t, None => 0 };
    let comments = match v.get("comments") {
        Some(c) => match c.as_array() {
            Some(a) => {
                let mut out: Vec<JsonValue> = Vec::new();
                let mut i: usize = 0;
                while i < a.len()
                    invariant
                        i <= a.len(),
                        trees(out@) == trees(a@.subrange(0, i as int)),
                    decreases a.len() - i,
                {
                    let x = crate::json::copy_json(&a[i]);
                    let ghost before = out@;
                    out.push(x);
                    proof {
                        let q = a@.subrange(0, i + 1);
                        assert(q.drop_last() == a@.subrange(0, i as int));
                        assert(out@.drop_last() == before);
                    }
                    i = i + 1;
                }
                assert(a@.subrange(0, a.len() as int) == a@);
                out
            },
            None => Vec::new(),
        },
        None => Vec::new(),
    };
    Ok(PageResult { total, comments })
}

/// The `%Y-%m-%d %H:%M:%S` text of a Unix time in UTC, when the time is
/// within the calendar's range.
pub uninterp spec fn spec_utc_time_text(ts: i64) -> Option<Seq<char>>;

/// Formats a Unix time with `chrono::DateTime::from_timestamp(ts, 0)` and
/// `format("%Y-%m-%d %H:%M:%S")`.
///
/// Trusted: the result is a function of the time, named
/// `spec_utc_time_text` (none when out of range).
#[verifier::external_body]
fn utc_time_text(ts: i64) -> (r: Option<String>)
    ensures
        crate::model::opt_str(r) == spec_utc_time_text(ts),
{
    match chrono::DateTime::from_timestamp(ts, 0) {
        Some(dt) => Some(dt.format("%Y-%m-%d %H:%M:%S").to_string()),
        None => None,
    }
}

/// The first address in a user's `avatar_thumb.url_list`, or empty.
pub open spec fn first_avatar(user: JsonTree) -> Seq<char> {
    match user.get("avatar_thumb"@) {
        Some(a) => match a.get("url_list"@) {
            Some(l) => match l.as_array() {
                Some(s) => if s.len() > 0 { match s[0].as_str() { Some(x) => x, None => Seq::empty() } } else { Seq::empty() },
                None => Seq::empty(),
            },
            None => Seq::empty(),
        },
        None => Seq::empty(),
    }
}

/// Whether a record reads as a comment: it has a user with a string id and
/// nickname, a string text and a string comment id.
pub open spec fn readable_record(c: JsonTree) -> bool {
    &&& c.get("user"@) matches Some(u) && u.get_str("uid"@) is Some && u.get_str("nickname"@) is Some
    &&& c.get_str("text"@) is Some
    &&& c.get_str("cid"@) is Some
}

/// `r` is the stored comment read from a readable record of work
/// `aweme_id`, read at `parsed_at` and stored at `now` (its id is new).
pub open spec fn stored_comment_of(c: JsonTree, r: Comment, aweme_id: Seq<char>, parsed_at: Seq<char>, now: Seq<char>) -> bool {
    let u = c.get("user"@)->Some_0;
    &&& r.account_id@.len() == 0
    &&& r.aweme_id@ == aweme_id
    &&& r.comment_id@ == c.str_or_empty("cid"@)
    &&& r.user_id@ == u.str_or_empty("uid"@)
    &&& r.user_nickname@ == u.str_or_empty("nickname"@)
    &&& r.user_avatar@ == first_avatar(u)
    &&& r.content@ == c.str_or_empty("text"@)
    &&& r.like_count == i64_or(c, "digg_count"@, 0)
    &&& r.reply_count == i64_or(c, "reply_count"@, 0)
    &&& r.create_time@ == match c.get_i64("create_time"@) {
        Some(ts) => match spec_utc_time_text(ts) { Some(t) => t, None => parsed_at },
        None => parsed_at,
    }
    &&& r.status == CommentStatus::Completed
    &&& r.created_at@ == now
}

/// The readable records, in order.
pub open spec fn readable_records(cs: Seq<JsonTree>) -> Seq<JsonTree>
    decreases cs.len(),
{
    if cs.len() == 0 {
        Seq::empty()
    } else if readable_record(cs.last()) {
        readable_records(cs.drop_last()).push(cs.last())
    } else {
        readable_records(cs.drop_last())
    }
}

fn first_avatar_exec(u: &JsonValue) -> (r: String)
    ensures
        r@ == first_avatar(u@),
{
    match u.get("avatar_thumb") {
        Some(a) => match a.get("url_list") {
            Some(l) => match l.as_array() {
                Some(s) => {
                    proof { crate::json::lemma_trees_index(s@); }
                    if s.len() > 0 {
                        match s[0].as_str() { Some(x) => x.clone(), None => String::new() }
                    } else {
                        String::new()
                    }
                },
                None => String::new(),
            },
            None => String::new(),
        },
        None => String::new(),
    }
}

impl DouyinCommentExtractor {
    /// The stored comment read from one record, when it is readable.
    pub fn parse_single_comment(&self, c: &JsonValue, aweme_id: &str, parsed_at: &str, now: &str) -> (r: Option<Comment>)
        ensures
            readable_record(c@) ==> (r matches Some(x) && stored_comment_of(c@, x, aweme_id@, parsed_at@, now@)),
            !readable_record(c@) ==> r is None,
    {
        let user = match c.get("user") { Some(u) => u, None => { return None; } };
        let user_id = match user.get_str("uid") { Some(x) => x, None => { return None; } };
        let user_nickname = match user.get_str("nickname") { Some(x) => x, None => { return None; } };
        let user_avatar = first_avatar_exec(user);
        let content = match c.get_str("text") { Some(x) => x, None => { return None; } };
        let comment_id = match c.get_str("cid") { Some(x) => x, None => { return None; } };
        let like_count = match c.get_i64("digg_count") { Some(x) => x, None => 0 };
        let reply_count = match c.get_i64("reply_count") { Some(x) => x, None => 0 };
        let create_time = match c.get_i64("create_time") {
            Some(ts) => match utc_time_text(ts) { Some(t) => t, None => String::from_str(parsed_at) },
            None => String::from_str(parsed_at),
        };
        Some(Comment {
            id: new_uuid(),
            account_id: String::new(),
            aweme_id: String::from_str(aweme_id),
            comment_id,
            user_id,
            user_nickname,
            user_avatar,
            content,
            like_count,
            reply_count,
            create_time,
            status: CommentStatus::Completed,
            created_at: String::from_str(now),
        })
    }

    /// The stored comments read from a page's records: the readable ones,
    /// in order.
    pub fn parse_comments(&self, aweme_id: &str, records: &Vec<JsonValue>, parsed_at: &str, now: &str) -> (r: Vec<Comment>)
        ensures
            r@.len() == readable_records(trees(records@)).len(),
            forall|i: int| 0 <= i < r@.len() ==> stored_comment_of(readable_records(trees(records@))[i], #[trigger] r@[i],
                aweme_id@, parsed_at@, now@),
    {
        let ghost ts = trees(records@);
        proof { crate::json::lemma_trees_index(records@); }
        let mut out: Vec<Comment> = Vec::new();
        let mut i: usize = 0;
        while i < records.len()
            invariant
                i <= records.len(),
                ts == trees(records@),
                ts.len() == records@.len(),
                forall|j: int| 0 <= j < records@.len() ==> #[trigger] ts[j] == records@[j]@,
                out@.len() == readable_records(ts.subrange(0, i as int)).len(),
                forall|j: int| 0 <= j < out@.len() ==> stored_comment_of(readable_records(ts.subrange(0, i as int))[j],
                    #[trigger] out@[j], aweme_id@, parsed_at@, now@),
            decreases records.len() - i,
        {
            proof {
                let q = ts.subrange(0, i + 1);
                assert(q.drop_last() == ts.subrange(0, i as int));
                assert(q.last() == records@[i as int]@);
            }
            match self.parse_single_comment(&records[i], aweme_id, parsed_at, now) {
                Some(x) => {
                    out.push(x);
                },
                None => {},
            }
            i = i + 1;
        }
        assert(ts.subrange(0, records.len() as int) == ts);
        out
    }

    /// The outcome of extracting a page: its readable comments with the
    /// work's total, or the failure (`提取评论失败: <reason>`) with nothing.
    pub fn extract_result(&self, page: Result<PageResult, String>, aweme_id: &str, parsed_at: &str, now: &str)
        -> (r: CommentExtractResult)
        ensures
            match page {
                Ok(p) => r.success && r.error_message is None && r.total_in_aweme == p.total
                    && r.comments@.len() == readable_records(trees(p.comments@)).len()
                    && r.total_extracted == r.comments@.len() as i64
                    && forall|i: int| 0 <= i < r.comments@.len() ==> stored_comment_of(
                        readable_records(trees(p.comments@))[i], #[trigger] r.comments@[i], aweme_id@, parsed_at@, now@),
                Err(e) => !r.success && r.total_extracted == 0 && r.total_in_aweme == 0 && r.comments@.len() == 0
                    && (r.error_message matches Some(m) && m@ == "提取评论失败: "@ + e@),
            },
    {
        match page {
            Ok(p) => {
                let comments = self.parse_comments(aweme_id, &p.comments, parsed_at, now);
                let n = comments.len();
                CommentExtractResult {
                    success: true,
                    total_extracted: n as i64,
                    total_in_aweme: p.total,
                    comments,
                    error_message: None,
                }
            },
            Err(e) => CommentExtractResult {
                success: false,
                total_extracted: 0,
                total_in_aweme: 0,
                comments: Vec::new(),
                error_message: Some(String::from_str("提取评论失败: ").concat(e.as_str())),
            },
        }
    }
}

/// Extracts a work's comments for a platform.
pub trait CommentExtractor {
    /// Extracts up to `max_count` comments of work `aweme_id` from page
    /// `cursor` on, with the credentials of account `account_id`.
    fn extract_comments(&self, account_id: &str, aweme_id: &str, max_count: i64, cursor: i64)
        -> Result<CommentExtractResult, PlatformError>;
}

proof fn lemma_page_header_keys(user_agent: Seq<char>, aweme_id: Seq<char>, ttwid: Seq<char>)
    ensures
        keys_distinct(page_header_pairs(user_agent, aweme_id, ttwid)),
{
    let l = page_header_pairs(user_agent, aweme_id, ttwid);
    reveal_strlit("sec-ch-ua"); reveal_strlit("Accept"); reveal_strlit("sec-ch-ua-mobile"); reveal_strlit("User-Agent"); reveal_strlit("sec-ch-ua-platform"); reveal_strlit("Sec-Fetch-Site"); reveal_strlit("Sec-Fetch-Mode"); reveal_strlit("Sec-Fetch-Dest"); reveal_strlit("Accept-Language"); reveal_strlit("Referer"); reveal_strlit("Cookie");
    assert(l[0].0.len() != l[1].0.len());
    assert(l[0].0.len() != l[2].0.len());
    assert(l[0].0.len() != l[3].0.len());
    assert(l[0].0.len() != l[4].0.len());
    assert(l[0].0.len() != l[5].0.len());
    assert(l[0].0.len() != l[6].0.len());
    assert(l[0].0.len() != l[7].0.len());
    assert(l[0].0.len() != l[8].0.len());
    assert(l[0].0.len() != l[9].0.len());
    assert(l[0].0.len() != l[10].0.len());
    assert(l[1].0.len() != l[2].0.len());
    assert(l[1].0.len() != l[3].0.len());
    assert(l[1].0.len() != l[4].0.len());
    assert(l[1].0.len() != l[5].0.len());
    assert(l[1].0.len() != l[6].0.len());
    assert(l[1].0.len() != l[7].0.len());
    assert(l[1].0.len() != l[8].0.len());
    assert(l[1].0.len() != l[9].0.len());
    assert(l[1].0[0] != l[10].0[0]);
    assert(l[2].0.len() != l[3].0.len());
    assert(l[2].0.len() != l[4].0.len());
    assert(l[2].0.len() != l[5].0.len());
    assert(l[2].0.len() != l[6].0.len());
    assert(l[2].0.len() != l[7].0.len());
    assert(l[2].0.len() != l[8].0.len());
    assert(l[2].0.len() != l[9].0.len());
    assert(l[2].0.len() != l[10].0.len());
    assert(l[3].0.len() != l[4].0.len());
    assert(l[3].0.len() != l[5].0.len());
    assert(l[3].0.len() != l[6].0.len());
    assert(l[3].0.len() != l[7].0.len());
    assert(l[3].0.len() != l[8].0.len());
    assert(l[3].0.len() != l[9].0.len());
    assert(l[3].0.len() != l[10].0.len());
    assert(l[4].0.len() != l[5].0.len());
    assert(l[4].0.len() != l[6].0.len());
    assert(l[4].0.len() != l[7].0.len());
    assert(l[4].0.len() != l[8].0.len());
    assert(l[4].0.len() != l[9].0.len());
    assert(l[4].0.len() != l[10].0.len());
    assert(l[5].0[10] != l[6].0[10]);
    assert(l[5].0[10] != l[7].0[10]);
    assert(l[5].0.len() != l[8].0.len());
    assert(l[5].0.len() != l[9].0.len());
    assert(l[5].0.len() != l[10].0.len());
    assert(l[6].0[10] != l[7].0[10]);
    assert(l[6].0.len() != l[8].0.len());
    assert(l[6].0.len() != l[9].0.len());
    assert(l[6].0.len() != l[10].0.len());
    assert(l[7].0.len() != l[8].0.len());
    assert(l[7].0.len() != l[9].0.len());
    assert(l[7].0.len() != l[10].0.len());
    assert(l[8].0.len() != l[9].0.len());
    assert(l[8].0.len() != l[10].0.len());
    assert(l[9].0.len() != l[10].0.len());
    assert forall|i: int, j: int| 0 <= i < j < l.len() implies #[trigger] l[i].0 != #[trigger] l[j].0 by {
        if i == 0 && j == 1 {
        } else if i == 0 && j == 2 {
        } else if i == 0 && j == 3 {
        } else if i == 0 && j == 4 {
        } else if i == 0 && j == 5 {
        } else if i == 0 && j == 6 {
        } else if i == 0 && j == 7 {
        } else if i == 0 && j == 8 {
        } else if i == 0 && j == 9 {
        } else if i == 0 && j == 10 {
        } else if i == 1 && j == 2 {
        } else if i == 1 && j == 3 {
        } else if i == 1 && j == 4 {
        } else if i == 1 && j == 5 {
        } else if i == 1 && j == 6 {
        } else if i == 1 && j == 7 {
        } else if i == 1 && j == 8 {
        } else if i == 1 && j == 9 {
        } else if i == 1 && j == 10 {
        } else if i == 2 && j == 3 {
        } else if i == 2 && j == 4 {
        } else if i == 2 && j == 5 {
        } else if i == 2 && j == 6 {
        } else if i == 2 && j == 7 {
        } else if i == 2 && j == 8 {
        } else if i == 2 && j == 9 {
        } else if i == 2 && j == 10 {
        } else if i == 3 && j == 4 {
        } else if i == 3 && j == 5 {
        } else if i == 3 && j == 6 {
        } else if i == 3 && j == 7 {
        } else if i == 3 && j == 8 {
        } else if i == 3 && j == 9 {
        } else if i == 3 && j == 10 {
        } else if i == 4 && j == 5 {
        } else if i == 4 && j == 6 {
        } else if i == 4 && j == 7 {
        } else if i == 4 && j == 8 {
        } else if i == 4 && j == 9 {
        } else if i == 4 && j == 10 {
        } else if i == 5 && j == 6 {
        } else if i == 5 && j == 7 {
        } else if i == 5 && j == 8 {
        } else if i == 5 && j == 9 {
        } else if i == 5 && j == 10 {
        } else if i == 6 && j == 7 {
        } else if i == 6 && j == 8 {
        } else if i == 6 && j == 9 {
        } else if i == 6 && j == 10 {
        } else if i == 7 && j == 8 {
        } else if i == 7 && j == 9 {
        } else if i == 7 && j == 10 {
        } else if i == 8 && j == 9 {
        } else if i == 8 && j == 10 {
        } else if i == 9 && j == 10 {
        }
    }
}

} // verus!
