//! Small helpers of the Douyin platform: publish timing, creation ids, the
//! POI anchor content, and the `a_bogus` request signature (computed by the
//! platform's script, with a digest placeholder when the script fails).

use vstd::prelude::*;
use crate::chars::{chars_of, string_of, push_str, push_chars};
use crate::numfmt::{dec, digit_char, push_dec, hex_lower, push_hex};
use vstd::utf8::encode_utf8;

verus! {

// ---------------------------------------------------------------------------
// Clock and randomness
// ---------------------------------------------------------------------------

/// Seconds since the Unix epoch by the system clock (zero for a clock set
/// before the epoch).
///
/// Trusted: depends on the clock; nothing is stated of the value.
#[verifier::external_body]
pub(crate) fn unix_time_secs() -> (r: u64)
{
    match std::time::SystemTime::now().duration_since(std::time::UNIX_EPOCH) {
        Ok(d) => d.as_secs(),
        Err(_) => 0,
    }
}

/// Milliseconds since the Unix epoch by the system clock (zero for a clock
/// set before the epoch).
///
/// Trusted: depends on the clock; nothing is stated of the value.
#[verifier::external_body]
pub(crate) fn unix_time_millis() -> (r: u128)
{
    match std::time::SystemTime::now().duration_since(std::time::UNIX_EPOCH) {
        Ok(d) => d.as_millis(),
        Err(_) => 0,
    }
}

/// A random number from `rand::random::<u32>()`.
///
/// Trusted: random; nothing is stated of the value.
#[verifier::external_body]
pub(crate) fn random_u32() -> (r: u32)
{
    rand::random::<u32>()
}

// ---------------------------------------------------------------------------
// Timing
// ---------------------------------------------------------------------------

/// Whether `now` can be a clock reading in seconds since the epoch.
pub open spec fn clock_reading(now: int) -> bool {
    0 <= now <= i64::MAX
}

/// `v` limited to the range of `i64`.
pub open spec fn clamp_i64(v: int) -> i64 {
    if v > i64::MAX { i64::MAX } else if v < i64::MIN { i64::MIN } else { v as i64 }
}

/// The publish time at the clock reading `now`: the requested send time if
/// there is one (positive), else `timeout` seconds from now.
pub fn calculate_timing_at(timeout: i64, send_time: i64, now: i64) -> (r: i64)
    requires
        send_time > 0 || (i64::MIN <= now + timeout <= i64::MAX),
    ensures
        r == if send_time > 0 { send_time as int } else { now + timeout },
{
    if send_time > 0 {
        return send_time;
    }
    now + timeout
}

/// The clock reading in whole seconds, as an `i64` (readings beyond its
/// range count as its maximum).
fn now_secs() -> (r: i64)
    ensures
        r >= 0,
{
    let now = unix_time_secs();
    if now > 9223372036854775807u64 { i64::MAX } else { now as i64 }
}

/// The publish time: the requested send time if there is one (positive),
/// else `timeout` seconds from now (limited to the range of `i64`).
pub fn calculate_timing(timeout: i64, send_time: i64) -> (r: i64)
    ensures
        send_time > 0 ==> r == send_time,
        send_time <= 0 ==> exists|now: int| #[trigger] clock_reading(now) && r == clamp_i64(now + timeout),
{
    if send_time > 0 {
        return send_time;
    }
    let now = now_secs();
    assert(clock_reading(now as int));
    if timeout > i64::MAX - now { i64::MAX } else { now + timeout }
}

/// The timeout at the clock reading `now`: the seconds until the requested
/// send time if there is one (positive), else `timeout`.
pub fn calculate_timeout_at(timeout: i64, send_time: i64, now: i64) -> (r: i64)
    requires
        send_time <= 0 || (i64::MIN <= send_time - now <= i64::MAX),
    ensures
        r == if send_time > 0 { send_time - now } else { timeout as int },
{
    if send_time > 0 {
        return send_time - now;
    }
    timeout
}

/// The timeout: the seconds until the requested send time if there is one
/// (positive), else `timeout`.
pub fn calculate_timeout(timeout: i64, send_time: i64) -> (r: i64)
    ensures
        send_time <= 0 ==> r == timeout,
        send_time > 0 ==> exists|now: int| #[trigger] clock_reading(now) && r == send_time - now,
{
    if send_time <= 0 {
        return timeout;
    }
    let now = now_secs();
    assert(clock_reading(now as int));
    send_time - now
}

/// The POI anchor content sent with a publication.
pub fn format_poi_anchor_content() -> (r: String)
    ensures
        r@ == "{\"is_commerce_intention\":true,\"recommend_poi_group\":true,\"primary_recommend_product_type\":1}"@,
{
    String::from_str("{\"is_commerce_intention\":true,\"recommend_poi_group\":true,\"primary_recommend_product_type\":1}")
}

// ---------------------------------------------------------------------------
// Creation ids
// ---------------------------------------------------------------------------

/// `n` (below 10000) in four digits, with leading zeros.
pub open spec fn four_digits(n: int) -> Seq<char> {
    seq![digit_char(n / 1000), digit_char((n / 100) % 10), digit_char((n / 10) % 10), digit_char(n % 10)]
}

/// A creation id: the millisecond timestamp, then the random number's last
/// four decimal digits.
pub open spec fn creation_id_text(millis: nat, random: u32) -> Seq<char> {
    dec(millis) + four_digits((random % 10000) as int)
}

/// The creation id for a timestamp and a random number.
pub fn creation_id_from(millis: u128, random: u32) -> (r: String)
    ensures
        r@ == creation_id_text(millis as nat, random),
{
    let mut out: Vec<char> = Vec::new();
    push_dec(&mut out, millis);
    let n: u32 = random % 10000;
    out.push(crate::numfmt::digit((n / 1000) as u8));
    out.push(crate::numfmt::digit(((n / 100) % 10) as u8));
    out.push(crate::numfmt::digit(((n / 10) % 10) as u8));
    out.push(crate::numfmt::digit((n % 10) as u8));
    assert(out@ == dec(millis as nat) + four_digits(n as int));
    string_of(out.as_slice())
}

/// A new creation id: the current millisecond timestamp and four random digits.
pub fn generate_creation_id() -> (r: String)
    ensures
        exists|millis: nat, random: u32| r@ == #[trigger] creation_id_text(millis, random),
{
    let millis = unix_time_millis();
    let random = random_u32();
    creation_id_from(millis, random)
}

// ---------------------------------------------------------------------------
// The a_bogus signature
// ---------------------------------------------------------------------------

/// The MD5 digest of `data`.
pub uninterp spec fn spec_md5(data: Seq<u8>) -> Seq<u8>;

/// Computes `md5::compute(data)`.
///
/// Trusted: the digest is a function of the bytes alone, named `spec_md5`,
/// and is 16 bytes long.
#[verifier::external_body]
fn md5_digest(data: &[u8]) -> (r: Vec<u8>)
    ensures
        r@ == spec_md5(data@),
        r@.len() == 16,
{
    md5::compute(data).0.to_vec()
}

/// The placeholder signature: the lowercase hexadecimal MD5 digest of the
/// query followed by the user agent.
pub open spec fn placeholder_text(url_query: Seq<char>, user_agent: Seq<char>) -> Seq<char> {
    hex_lower(spec_md5(encode_utf8(url_query + user_agent)))
}

/// Whether `c` is a lowercase hexadecimal digit.
pub open spec fn is_lower_hex(c: char) -> bool {
    ('0' <= c <= '9') || ('a' <= c <= 'f')
}

proof fn lemma_hex_lower_shape(b: Seq<u8>)
    ensures
        hex_lower(b).len() == 2 * b.len(),
        forall|i: int| 0 <= i < hex_lower(b).len() ==> is_lower_hex(#[trigger] hex_lower(b)[i]),
    decreases b.len(),
{
    if b.len() > 0 {
        lemma_hex_lower_shape(b.drop_last());
        let h = hex_lower(b.drop_last());
        let t = seq![crate::numfmt::hex_char((b.last() / 16) as int), crate::numfmt::hex_char((b.last() % 16) as int)];
        assert(hex_lower(b) == h + t);
        assert forall|i: int| 0 <= i < hex_lower(b).len() implies is_lower_hex(#[trigger] hex_lower(b)[i]) by {
            if i < h.len() {
                assert(hex_lower(b)[i] == h[i]);
            } else {
                assert(hex_lower(b)[i] == t[i - h.len()]);
                crate::numfmt::lemma_hex_char_shape((b.last() / 16) as int);
                crate::numfmt::lemma_hex_char_shape((b.last() % 16) as int);
            }
        }
    }
}

/// The placeholder signature used when the script cannot compute one.
pub fn calculate_placeholder(url_query: &str, user_agent: &str) -> (r: String)
    ensures
        r@ == placeholder_text(url_query@, user_agent@),
        r@.len() == 32,
        forall|i: int| 0 <= i < r@.len() ==> is_lower_hex(#[trigger] r@[i]),
{
    let combined = String::from_str(url_query).concat(user_agent);
    let digest = md5_digest(combined.as_str().as_bytes());
    let mut out: Vec<char> = Vec::new();
    push_hex(&mut out, digest.as_slice());
    assert(out@ =~= hex_lower(digest@));
    proof { lemma_hex_lower_shape(digest@); }
    string_of(out.as_slice())
}

/// Runs the signature script `js_code` in a QuickJS context made by
/// `rquickjs::Context::builder().build`, then calls its
/// `generate_a_bogus(url_query, user_agent)`; the engine's interrupt
/// handler stops the run once `past_deadline(deadline_millis)` holds.
///
/// Trusted: the result is an error. `Context::builder()` is a
/// `ContextBuilder<()>`, which adds no intrinsic beyond the base objects;
/// without the `Eval` intrinsic QuickJS's `JS_EvalInternal` throws "eval is
/// not supported", and `Ctx::eval` hands that exception back as `Err`.
#[verifier::external_body]
pub(crate) fn run_a_bogus_script(js_code: &str, url_query: &str, user_agent: &str, deadline_millis: u128) -> (r: Result<String, String>)
    ensures
        r is Err,
{
    let runtime = rquickjs::Runtime::new().map_err(|e| format!("创建 JS 运行时失败: {}", e))?;
    runtime.set_interrupt_handler(Some(Box::new(move || past_deadline(deadline_millis))));
    let ctx = rquickjs::Context::builder().build(&runtime).map_err(|e| format!("创建 JS 上下文失败: {}", e))?;
    ctx.with(|ctx| {
        ctx.eval::<(), _>(js_code.as_bytes().to_vec()).map_err(|e| format!("执行 a_bogus.js 失败: {}", e))?;
        let f: rquickjs::Function = ctx.globals().get("generate_a_bogus").map_err(|e| format!("获取 generate_a_bogus 函数失败: {}", e))?;
        f.call((url_query, user_agent)).map_err(|e| format!("调用 generate_a_bogus 失败: {}", e))
    })
}

/// How long the signature script may run, in milliseconds.
pub const SCRIPT_TIME_LIMIT_MILLIS: u128 = 10000;

/// Whether `now` can be a clock reading in milliseconds since the epoch.
pub open spec fn millis_reading(now: int) -> bool {
    0 <= now <= u128::MAX
}

/// Whether the clock has passed `deadline_millis` (milliseconds since the
/// epoch): some clock reading is later than the deadline.
pub fn past_deadline(deadline_millis: u128) -> (r: bool)
    ensures
        exists|now: int| #[trigger] millis_reading(now) && r == (now > deadline_millis),
{
    let now = unix_time_millis();
    assert(millis_reading(now as int));
    now > deadline_millis
}

/// The signature given what the script run gave: its text, or the
/// placeholder when it failed.
pub open spec fn spec_a_bogus_from(script: Result<Seq<char>, Seq<char>>, url_query: Seq<char>, user_agent: Seq<char>) -> Seq<char> {
    match script {
        Ok(s) => s,
        Err(_) => placeholder_text(url_query, user_agent),
    }
}

/// The view of a script run's outcome.
pub open spec fn script_view(o: Result<String, String>) -> Result<Seq<char>, Seq<char>> {
    match o {
        Ok(s) => Ok(s@),
        Err(e) => Err(e@),
    }
}

/// The signature given what the script run gave: its text, or the
/// placeholder when it failed.
pub fn a_bogus_from(script: Result<String, String>, url_query: &str, user_agent: &str) -> (r: String)
    ensures
        r@ == spec_a_bogus_from(script_view(script), url_query@, user_agent@),
        script is Err ==> r@.len() == 32,
        script is Err ==> forall|i: int| 0 <= i < r@.len() ==> is_lower_hex(#[trigger] r@[i]),
{
    match script {
        Ok(s) => s,
        Err(_) => calculate_placeholder(url_query, user_agent),
    }
}

/// The signature to use: the placeholder when it is forced or there is no
/// script (`js_code` none); else `a_bogus_from` what the script run gives,
/// run for at most `SCRIPT_TIME_LIMIT_MILLIS`. The run fails in the engine
/// context it is given, so the result is always the placeholder.
pub fn calculate_a_bogus(force_placeholder: bool, js_code: Option<&str>, url_query: &str, user_agent: &str) -> (r: String)
    ensures
        r@ == placeholder_text(url_query@, user_agent@),
        r@.len() == 32,
        forall|i: int| 0 <= i < r@.len() ==> is_lower_hex(#[trigger] r@[i]),
{
    if force_placeholder {
        return calculate_placeholder(url_query, user_agent);
    }
    match js_code {
        Some(code) => {
            let now = unix_time_millis();
            let deadline = if now <= u128::MAX - SCRIPT_TIME_LIMIT_MILLIS { now + SCRIPT_TIME_LIMIT_MILLIS } else { u128::MAX };
            let out = run_a_bogus_script(code, url_query, user_agent, deadline);
            let r = a_bogus_from(out, url_query, user_agent);
            r
        },
        None => calculate_placeholder(url_query, user_agent),
    }
}

/// The script's possible places, in the order they are tried: under the
/// manifest directory, under its parent, and the developer's checkout.
pub open spec fn js_candidates(manifest_dir: Seq<char>) -> Seq<Seq<char>> {
    seq![
        crate::model::path_join(manifest_dir, "python/utils/a_bogus.js"@),
        crate::model::path_join(manifest_dir, "../python/utils/a_bogus.js"@),
        "/Users/yangzhenguo/workspace/auto-matrix-manager/python/utils/a_bogus.js"@,
    ]
}

fn join_path(base: &str, name: &str) -> (r: String)
    ensures
        r@ == crate::model::path_join(base@, name@),
{
    let b = chars_of(base);
    proof { reveal_strlit("/"); }
    if b.len() == 0 {
        String::from_str(name)
    } else if b[b.len() - 1] == '/' {
        String::from_str(base).concat(name)
    } else {
        String::from_str(base).concat("/").concat(name)
    }
}

/// The script's possible places.
pub fn a_bogus_js_candidates(manifest_dir: &str) -> (r: Vec<String>)
    ensures
        crate::model::strs(r@) == js_candidates(manifest_dir@),
{
    let mut v: Vec<String> = Vec::new();
    v.push(join_path(manifest_dir, "python/utils/a_bogus.js"));
    v.push(join_path(manifest_dir, "../python/utils/a_bogus.js"));
    v.push(String::from_str("/Users/yangzhenguo/workspace/auto-matrix-manager/python/utils/a_bogus.js"));
    assert(crate::model::strs(v@) == js_candidates(manifest_dir@));
    v
}

/// The script's place: the first candidate that exists (`exists` says which
/// do, in order), or the first candidate when none does.
pub fn get_a_bogus_js_path(manifest_dir: &str, exists: &Vec<bool>) -> (r: String)
    ensures
        ({
            let c = js_candidates(manifest_dir@);
            ||| exists|i: int| 0 <= i < 3 && i < exists@.len() && exists@[i]
                && (forall|j: int| 0 <= j < i ==> !exists@[j]) && r@ == c[i]
            ||| (forall|i: int| 0 <= i < 3 && i < exists@.len() ==> !exists@[i]) && r@ == c[0]
        }),
{
    let c = a_bogus_js_candidates(manifest_dir);
    assert(crate::model::strs(c@).len() == c@.len());
    let mut i: usize = 0;
    while i < 3 && i < exists.len()
        invariant
            i <= 3,
            crate::model::strs(c@) == js_candidates(manifest_dir@),
            c@.len() == 3,
            forall|j: int| 0 <= j < i && j < exists@.len() ==> !exists@[j],
        decreases 3 - i,
    {
        if exists[i] {
            assert(c@[i as int]@ == js_candidates(manifest_dir@)[i as int]);
            return c[i].clone();
        }
        i = i + 1;
    }
    assert(c@[0]@ == js_candidates(manifest_dir@)[0]);
    c[0].clone()
}

} // verus!
