//! Uploading a video to the VOD service: the signed requests' parameters,
//! headers and bodies, reading the upload address from the apply answer,
//! the plan of a multipart upload and its completion text, and the CRC32
//! check values. The transfers themselves are made by the caller.

use vstd::prelude::*;
use crate::chars::{chars_of, string_of, push_str, push_chars, join_with};
use crate::json::{JsonValue, JsonTree, json_text, to_json_string, empty_object, obj_set, jstr, jint, int_tree,
    members_insert, members_insert_all, object_of, member_trees, lemma_member_trees_index, trees, tree};
use crate::numfmt::{dec, hex_char, push_dec, hex_digit};
use crate::signature_v4::{pairs_view, pairs_lookup, get_pair, keys_distinct, lemma_push_fresh_key};
use crate::crypto::{url_encode, url_encoded};
use crate::json::key_lt;
use crate::model::PlatformError;
use vstd::utf8::encode_utf8;

verus! {

/// Files up to this size are sent in one request; larger ones in parts of
/// this size (5 MiB).
pub const VIDEO_MAX_SIZE: u64 = 5242880;

/// How a video file is sent: in one request, or in parts.
#[derive(PartialEq, Eq, Structural, Clone, Copy, Debug)]
pub enum UploadMode {
    Whole,
    Parts,
}

/// How a file of `file_size` bytes is uploaded: an empty file is refused
/// with `视频文件为空`; up to `VIDEO_MAX_SIZE` bytes it goes in one
/// request, beyond that in parts.
pub fn upload_mode(file_size: u64) -> (r: Result<UploadMode, String>)
    ensures
        file_size == 0 ==> (r matches Err(e) && e@ == "视频文件为空"@),
        0 < file_size <= VIDEO_MAX_SIZE ==> r == Ok::<UploadMode, String>(UploadMode::Whole),
        file_size > VIDEO_MAX_SIZE ==> r == Ok::<UploadMode, String>(UploadMode::Parts),
{
    if file_size == 0 {
        Err(String::from_str("视频文件为空"))
    } else if file_size <= VIDEO_MAX_SIZE {
        Ok(UploadMode::Whole)
    } else {
        Ok(UploadMode::Parts)
    }
}

/// Where and how to upload, from the apply answer.
pub struct UploadApplyResult {
    pub upload_url: String,
    pub upload_auth: String,
    pub video_id: String,
    pub session_key: String,
}

/// An uploaded part: its number and its CRC32 in hexadecimal.
pub struct PartInfo {
    pub part_number: i32,
    pub crc32: String,
}

/// The uploader of one account.
pub struct VideoUploader {
    /// The upload credentials from the upload options.
    pub upload_auth: Vec<(String, JsonValue)>,
    pub third_id: String,
    pub user_agent: String,
}

// ---------------------------------------------------------------------------
// Hexadecimal renderings
// ---------------------------------------------------------------------------

/// Lowercase hexadecimal rendering of `n`, without leading zeros.
pub open spec fn hexn(n: nat) -> Seq<char>
    decreases n,
{
    if n < 16 { seq![hex_char(n as int)] } else { hexn(n / 16) + seq![hex_char((n % 16) as int)] }
}

/// Eight lowercase hexadecimal digits of `n` (below 2^32), with leading zeros.
pub open spec fn hex8(n: nat) -> Seq<char> {
    seq![hex_char(((n / 0x10000000) % 16) as int), hex_char(((n / 0x1000000) % 16) as int),
        hex_char(((n / 0x100000) % 16) as int), hex_char(((n / 0x10000) % 16) as int),
        hex_char(((n / 0x1000) % 16) as int), hex_char(((n / 0x100) % 16) as int),
        hex_char(((n / 0x10) % 16) as int), hex_char((n % 16) as int)]
}

fn push_hexn(out: &mut Vec<char>, n: u32)
    ensures
        final(out)@ == old(out)@ + hexn(n as nat),
    decreases n,
{
    if n >= 16 {
        push_hexn(out, n / 16);
    }
    out.push(hex_digit((n % 16) as u8));
    proof {
        if n >= 16 {
            assert(old(out)@ + hexn((n / 16) as nat) + seq![hex_char((n % 16) as int)] == old(out)@ + hexn(n as nat));
        } else {
            assert(old(out)@.push(hex_char(n as int)) == old(out)@ + hexn(n as nat));
        }
    }
}

/// `format!("{:x}", n)` for an unsigned `n`.
pub fn hex_u32(n: u32) -> (r: String)
    ensures
        r@ == hexn(n as nat),
{
    let mut out: Vec<char> = Vec::new();
    push_hexn(&mut out, n);
    assert(out@ =~= hexn(n as nat));
    string_of(out.as_slice())
}

/// The bits of `n` read as an unsigned number (two's complement).
pub open spec fn u32_bits(n: i32) -> nat {
    if n >= 0 { n as nat } else { (n + 0x1_0000_0000) as nat }
}

/// `format!("{:x}", n)` for a signed `n`: the hexadecimal rendering of its
/// two's complement bits.
pub fn hex_i32(n: i32) -> (r: String)
    ensures
        r@ == hexn(u32_bits(n)),
{
    let u: u32 = if n >= 0 { n as u32 } else { ((n as i64) + 0x1_0000_0000i64) as u32 };
    hex_u32(u)
}

/// `format!("{:08x}", n)`.
pub fn hex8_u32(n: u32) -> (r: String)
    ensures
        r@ == hex8(n as nat),
{
    let mut out: Vec<char> = Vec::new();
    out.push(hex_digit(((n / 0x10000000) % 16) as u8));
    out.push(hex_digit(((n / 0x1000000) % 16) as u8));
    out.push(hex_digit(((n / 0x100000) % 16) as u8));
    out.push(hex_digit(((n / 0x10000) % 16) as u8));
    out.push(hex_digit(((n / 0x1000) % 16) as u8));
    out.push(hex_digit(((n / 0x100) % 16) as u8));
    out.push(hex_digit(((n / 0x10) % 16) as u8));
    out.push(hex_digit((n % 16) as u8));
    assert(out@ =~= hex8(n as nat));
    string_of(out.as_slice())
}

// ---------------------------------------------------------------------------
// CRC32
// ---------------------------------------------------------------------------

/// One bit step of the CRC32 (IEEE, reflected) register.
pub open spec fn crc_step(c: u32) -> u32 {
    if c & 1u32 == 1u32 { (c >> 1u32) ^ 0xEDB8_8320u32 } else { c >> 1u32 }
}

/// The register after taking in the byte `b`: the byte is added, then
/// eight bit steps.
pub open spec fn crc_byte(c: u32, b: u8) -> u32 {
    let x = c ^ (b as u32);
    crc_step(crc_step(crc_step(crc_step(crc_step(crc_step(crc_step(crc_step(x))))))))
}

/// The register after the bytes of `data`, starting from all ones.
pub open spec fn crc_register(data: Seq<u8>) -> u32
    decreases data.len(),
{
    if data.len() == 0 { 0xFFFF_FFFFu32 } else { crc_byte(crc_register(data.drop_last()), data.last()) }
}

/// The CRC32 (IEEE) check value of `data`: the final register, inverted.
pub open spec fn spec_crc32(data: Seq<u8>) -> u32 {
    crc_register(data) ^ 0xFFFF_FFFFu32
}

/// Computes `crc32fast::hash(data)`.
///
/// Trusted: the check value is the CRC32 (IEEE) of the bytes, as
/// `spec_crc32` computes it.
#[verifier::external_body]
fn crc32_of(data: &[u8]) -> (r: u32)
    ensures
        r == spec_crc32(data@),
{
    crc32fast::hash(data)
}

/// The check value of `data` as eight hexadecimal digits.
pub fn calculate_crc32(data: &[u8]) -> (r: String)
    ensures
        r@ == hex8(spec_crc32(data@) as nat),
{
    hex8_u32(crc32_of(data))
}

/// The check value of an uploaded part: the value and its hexadecimal
/// rendering without leading zeros.
pub fn part_crc32(data: &[u8]) -> (r: (u32, String))
    ensures
        r.0 == spec_crc32(data@),
        r.1@ == hexn(spec_crc32(data@) as nat),
{
    let c = crc32_of(data);
    (c, hex_u32(c))
}

// ---------------------------------------------------------------------------
// Reading the apply answer
// ---------------------------------------------------------------------------

/// The error that an answer reports in `ResponseMetadata.Error`: its code
/// and message when either is there.
pub open spec fn answer_error(result: JsonTree) -> Option<Seq<char>> {
    match result.get("ResponseMetadata"@) {
        Some(meta) => match meta.get("Error"@) {
            Some(err) => {
                let code = err.str_or_empty("Code"@);
                let msg = err.str_or_empty("Message"@);
                if code.len() > 0 || msg.len() > 0 { Some("API错误: "@ + code + " - "@ + msg) } else { None }
            },
            None => None,
        },
        None => None,
    }
}

/// Checks an answer for a reported error.
pub fn check_error(result: &JsonValue) -> (r: Result<(), String>)
    ensures
        match answer_error(result@) {
            Some(e) => r matches Err(m) && m@ == e,
            None => r is Ok,
        },
{
    match result.get("ResponseMetadata") {
        Some(meta) => match meta.get("Error") {
            Some(err) => {
                let code = err.str_or_empty("Code");
                let msg = err.str_or_empty("Message");
                if !code.as_str().is_empty() || !msg.as_str().is_empty() {
                    Err(String::from_str("API错误: ").concat(code.as_str()).concat(" - ").concat(msg.as_str()))
                } else {
                    Ok(())
                }
            },
            None => Ok(()),
        },
        None => Ok(()),
    }
}

/// The object member `k`.
pub open spec fn obj_member(t: JsonTree, k: Seq<char>) -> Option<JsonTree> {
    match t.get(k) {
        Some(JsonTree::Object(m)) => Some(JsonTree::Object(m)),
        _ => None,
    }
}

/// The first element of the array member `k`: `Err(1)` when the member is
/// not an array, `Err(2)` when it is empty, `Err(3)` when its first element
/// is not an object.
pub open spec fn first_obj(t: JsonTree, k: Seq<char>) -> Result<JsonTree, int> {
    match t.get(k) {
        Some(JsonTree::Array(a)) => if a.len() == 0 { Err(2) } else {
            match a[0] { JsonTree::Object(m) => Ok(JsonTree::Object(m)), _ => Err(3) }
        },
        _ => Err(1),
    }
}

/// What the apply answer gives: the upload address (`https://` host
/// `/upload/v1/` store URI), the upload authorization, the video id and the
/// session key of the first upload node and its first store; each missing
/// piece fails with its own message.
pub open spec fn spec_apply_result(result: JsonTree) -> Result<(Seq<char>, Seq<char>, Seq<char>, Seq<char>), Seq<char>> {
    match obj_member(result, "Result"@) {
        None => Err("获取上传节点失败"@),
        Some(ur) => match obj_member(ur, "InnerUploadAddress"@) {
            None => Err("获取InnerUploadAddress失败"@),
            Some(inner) => match first_obj(inner, "UploadNodes"@) {
                Err(c) => Err(if c == 1 { "获取UploadNodes失败"@ } else if c == 2 { "获取上传节点失败"@ } else { "解析上传节点失败"@ }),
                Ok(node) => match (node.get_str("UploadHost"@), node.get_str("Vid"@), node.get_str("SessionKey"@)) {
                    (None, _, _) => Err("获取UploadHost失败"@),
                    (Some(_), None, _) => Err("获取VideoId失败"@),
                    (Some(_), Some(_), None) => Err("获取SessionKey失败"@),
                    (Some(host), Some(vid), Some(sk)) => match first_obj(node, "StoreInfos"@) {
                        Err(c) => Err(if c == 1 { "获取StoreInfos失败"@ } else if c == 2 { "获取存储信息失败"@ } else { "解析存储信息失败"@ }),
                        Ok(store) => match (store.get_str("StoreUri"@), store.get_str("Auth"@)) {
                            (None, _) => Err("获取StoreUri失败"@),
                            (Some(_), None) => Err("获取Auth失败"@),
                            (Some(uri), Some(auth)) => Ok(("https://"@ + host + "/upload/v1/"@ + uri, auth, vid, sk)),
                        },
                    },
                },
            },
        },
    }
}

fn obj_member_exec<'a>(t: &'a JsonValue, k: &str) -> (r: Option<&'a JsonValue>)
    ensures
        match r {
            Some(x) => obj_member(t@, k@) == Some(x@),
            None => obj_member(t@, k@) is None,
        },
{
    match t.get(k) {
        Some(x) => if x.is_object() { Some(x) } else { None },
        None => None,
    }
}

fn first_obj_exec<'a>(t: &'a JsonValue, k: &str) -> (r: Result<&'a JsonValue, u8>)
    ensures
        match r {
            Ok(x) => first_obj(t@, k@) == Ok::<JsonTree, int>(x@),
            Err(c) => first_obj(t@, k@) == Err::<JsonTree, int>(c as int),
        },
{
    match t.get(k) {
        Some(JsonValue::Array(a)) => {
            proof { crate::json::lemma_trees_index(a@); }
            if a.len() == 0 {
                Err(2)
            } else if a[0].is_object() {
                Ok(&a[0])
            } else {
                Err(3)
            }
        },
        _ => Err(1),
    }
}

/// Reads the apply answer.
pub fn parse_upload_apply_result(result: &JsonValue) -> (r: Result<UploadApplyResult, String>)
    ensures
        match r {
            Ok(a) => spec_apply_result(result@) == Ok::<(Seq<char>, Seq<char>, Seq<char>, Seq<char>), Seq<char>>(
                (a.upload_url@, a.upload_auth@, a.video_id@, a.session_key@)),
            Err(e) => spec_apply_result(result@) == Err::<(Seq<char>, Seq<char>, Seq<char>, Seq<char>), Seq<char>>(e@),
        },
{
    let ur = match obj_member_exec(result, "Result") {
        Some(x) => x,
        None => { return Err(String::from_str("获取上传节点失败")); },
    };
    let inner = match obj_member_exec(ur, "InnerUploadAddress") {
        Some(x) => x,
        None => { return Err(String::from_str("获取InnerUploadAddress失败")); },
    };
    let node = match first_obj_exec(inner, "UploadNodes") {
        Ok(x) => x,
        Err(c) => {
            return Err(String::from_str(if c == 1 { "获取UploadNodes失败" } else if c == 2 { "获取上传节点失败" } else { "解析上传节点失败" }));
        },
    };
    let host = match node.get_str("UploadHost") {
        Some(x) => x,
        None => { return Err(String::from_str("获取UploadHost失败")); },
    };
    let vid = match node.get_str("Vid") {
        Some(x) => x,
        None => { return Err(String::from_str("获取VideoId失败")); },
    };
    let sk = match node.get_str("SessionKey") {
        Some(x) => x,
        None => { return Err(String::from_str("获取SessionKey失败")); },
    };
    let store = match first_obj_exec(node, "StoreInfos") {
        Ok(x) => x,
        Err(c) => {
            return Err(String::from_str(if c == 1 { "获取StoreInfos失败" } else if c == 2 { "获取存储信息失败" } else { "解析存储信息失败" }));
        },
    };
    let uri = match store.get_str("StoreUri") {
        Some(x) => x,
        None => { return Err(String::from_str("获取StoreUri失败")); },
    };
    let auth = match store.get_str("Auth") {
        Some(x) => x,
        None => { return Err(String::from_str("获取Auth失败")); },
    };
    let url = String::from_str("https://").concat(host.as_str()).concat("/upload/v1/").concat(uri.as_str());
    Ok(UploadApplyResult { upload_url: url, upload_auth: auth, video_id: vid, session_key: sk })
}

// ---------------------------------------------------------------------------
// Requests
// ---------------------------------------------------------------------------

fn pair(a: &str, b: &str) -> (r: (String, String))
    ensures
        r.0@ == a@,
        r.1@ == b@,
{
    (String::from_str(a), String::from_str(b))
}

pub(crate) fn push_pair(v: &mut Vec<(String, String)>, a: &str, b: &str)
    ensures
        pairs_view(final(v)@) == pairs_view(old(v)@).push((a@, b@)),
{
    let ghost before = pairs_view(v@);
    v.push(pair(a, b));
    assert(pairs_view(v@) == before.push((a@, b@)));
}

/// The text of the string member `k` of the upload credentials, or nothing.
pub open spec fn auth_str(auth: Seq<(String, JsonValue)>, k: Seq<char>) -> Seq<char> {
    match crate::json::members_lookup(member_trees(auth), k) {
        Some(JsonTree::Str(s)) => s,
        _ => Seq::empty(),
    }
}

/// The string member `k` of the upload credentials.
pub open spec fn auth_opt_str(auth: Seq<(String, JsonValue)>, k: Seq<char>) -> Option<Seq<char>> {
    match crate::json::members_lookup(member_trees(auth), k) {
        Some(JsonTree::Str(s)) => Some(s),
        _ => None,
    }
}

/// The signing credentials: the access key, secret key and session token
/// (each when not empty) and the signature version (when a string); when
/// no access key is there, empty access key, secret key and token.
pub open spec fn credentials_list(auth: Seq<(String, JsonValue)>) -> Seq<(Seq<char>, Seq<char>)> {
    let ak = auth_str(auth, "AccessKeyID"@);
    let sk = auth_str(auth, "SecretAccessKey"@);
    let st = auth_str(auth, "SessionToken"@);
    let c1 = if ak.len() > 0 { seq![("ak"@, ak)] } else { Seq::empty() };
    let c2 = if sk.len() > 0 { c1.push(("sk"@, sk)) } else { c1 };
    let c3 = if st.len() > 0 { c2.push(("st"@, st)) } else { c2 };
    let c4 = match auth_opt_str(auth, "SignatureVersion"@) { Some(sv) => c3.push(("sv"@, sv)), None => c3 };
    if ak.len() == 0 {
        crate::signature_v4::pairs_set(crate::signature_v4::pairs_set(crate::signature_v4::pairs_set(
            c4, "ak"@, Seq::empty()), "sk"@, Seq::empty()), "st"@, Seq::empty())
    } else {
        c4
    }
}

fn member_str(v: &Vec<(String, JsonValue)>, k: &str) -> (r: Option<String>)
    ensures
        opt_str_view(r) == auth_opt_str(v@, k@),
{
    let ghost m = member_trees(v@);
    proof { lemma_member_trees_index(v@); }
    assert(m.subrange(0, m.len() as int) == m);
    let mut i: usize = 0;
    while i < v.len()
        invariant
            i <= v.len(),
            m == member_trees(v@),
            m.len() == v@.len(),
            forall|j: int| 0 <= j < v@.len() ==> #[trigger] m[j] == (v@[j].0@, v@[j].1@),
            crate::json::members_lookup(m, k@) == crate::json::members_lookup(m.subrange(i as int, m.len() as int), k@),
        decreases v.len() - i,
    {
        proof {
            let t = m.subrange(i as int, m.len() as int);
            assert(t[0] == m[i as int]);
            assert(t.subrange(1, t.len() as int) == m.subrange(i + 1, m.len() as int));
        }
        if crate::chars::str_eq(v[i].0.as_str(), k) {
            return match &v[i].1 {
                JsonValue::Str(s) => Some(s.clone()),
                _ => None,
            };
        }
        i = i + 1;
    }
    None
}

/// The text of an optional string.
pub open spec fn opt_str_view(o: Option<String>) -> Option<Seq<char>> {
    match o { Some(s) => Some(s@), None => None }
}

impl VideoUploader {
    /// An uploader with the upload credentials of an account.
    pub fn new(upload_auth: Vec<(String, JsonValue)>, third_id: String, user_agent: String) -> (r: Self)
        ensures
            r.upload_auth == upload_auth,
            r.third_id == third_id,
            r.user_agent == user_agent,
    {
        VideoUploader { upload_auth, third_id, user_agent }
    }

    /// The signing credentials.
    pub fn build_credentials(&self) -> (r: Vec<(String, String)>)
        ensures
            pairs_view(r@) == credentials_list(self.upload_auth@),
            keys_distinct(pairs_view(r@)),
    {
        proof { lemma_credentials_keys(self.upload_auth@); }
        let ak = match member_str(&self.upload_auth, "AccessKeyID") { Some(s) => s, None => String::new() };
        let sk = match member_str(&self.upload_auth, "SecretAccessKey") { Some(s) => s, None => String::new() };
        let st = match member_str(&self.upload_auth, "SessionToken") { Some(s) => s, None => String::new() };
        let sv = member_str(&self.upload_auth, "SignatureVersion");
        let mut c: Vec<(String, String)> = Vec::new();
        assert(pairs_view(c@) =~= Seq::<(Seq<char>, Seq<char>)>::empty());
        let has_ak = !ak.as_str().is_empty();
        if has_ak { push_pair(&mut c, "ak", ak.as_str()); assert(pairs_view(c@) =~= seq![("ak"@, ak@)]); }
        if !sk.as_str().is_empty() { push_pair(&mut c, "sk", sk.as_str()); }
        if !st.as_str().is_empty() { push_pair(&mut c, "st", st.as_str()); }
        match sv {
            Some(v) => { push_pair(&mut c, "sv", v.as_str()); },
            None => {},
        }
        if !has_ak {
            crate::signature_v4::set_pair(&mut c, String::from_str("ak"), String::new());
            crate::signature_v4::set_pair(&mut c, String::from_str("sk"), String::new());
            crate::signature_v4::set_pair(&mut c, String::from_str("st"), String::new());
        }
        c
    }
}

/// The parameters of the apply request.
pub open spec fn apply_params_list(file_size: u64, third_id: Seq<char>, s: Seq<char>) -> Seq<(Seq<char>, Seq<char>)> {
    seq![("Action"@, "ApplyUploadInner"@), ("Version"@, "2020-11-19"@), ("SpaceName"@, "aweme"@),
        ("FileType"@, "video"@), ("IsInner"@, "1"@), ("FileSize"@, dec(file_size as nat)), ("app_id"@, "2906"@),
        ("user_id"@, third_id), ("s"@, s)]
}

/// The parameters of the apply request for a file of `file_size` bytes,
/// with the random text `s`.
pub fn apply_upload_params(file_size: u64, third_id: &str, s: &str) -> (r: Vec<(String, String)>)
    ensures
        pairs_view(r@) == apply_params_list(file_size, third_id@, s@),
        keys_distinct(pairs_view(r@)),
{
    let mut v: Vec<(String, String)> = Vec::new();
    assert(pairs_view(v@) =~= Seq::<(Seq<char>, Seq<char>)>::empty());
    push_pair(&mut v, "Action", "ApplyUploadInner");
    push_pair(&mut v, "Version", "2020-11-19");
    push_pair(&mut v, "SpaceName", "aweme");
    push_pair(&mut v, "FileType", "video");
    push_pair(&mut v, "IsInner", "1");
    let size = string_of(crate::numfmt::dec_chars(file_size as u128).as_slice());
    push_pair(&mut v, "FileSize", size.as_str());
    push_pair(&mut v, "app_id", "2906");
    push_pair(&mut v, "user_id", third_id);
    push_pair(&mut v, "s", s);
    assert(pairs_view(v@) =~= apply_params_list(file_size, third_id@, s@));
    proof { lemma_apply_params_list_keys(file_size, third_id@, s@); }
    v
}

/// The parameters of the commit request.
pub open spec fn commit_params_list(third_id: Seq<char>) -> Seq<(Seq<char>, Seq<char>)> {
    seq![("Action"@, "CommitUploadInner"@), ("SpaceName"@, "aweme"@), ("Version"@, "2020-11-19"@),
        ("app_id"@, "2906"@), ("user_id"@, third_id)]
}

/// The parameters of the commit request.
pub fn commit_upload_params(third_id: &str) -> (r: Vec<(String, String)>)
    ensures
        pairs_view(r@) == commit_params_list(third_id@),
        keys_distinct(pairs_view(r@)),
{
    let mut v: Vec<(String, String)> = Vec::new();
    assert(pairs_view(v@) =~= Seq::<(Seq<char>, Seq<char>)>::empty());
    push_pair(&mut v, "Action", "CommitUploadInner");
    push_pair(&mut v, "SpaceName", "aweme");
    push_pair(&mut v, "Version", "2020-11-19");
    push_pair(&mut v, "app_id", "2906");
    push_pair(&mut v, "user_id", third_id);
    assert(pairs_view(v@) =~= commit_params_list(third_id@));
    proof { lemma_commit_params_list_keys(third_id@); }
    v
}

/// The body of the commit request: the session key and the functions to run.
pub open spec fn commit_body_json(session_key: Seq<char>) -> JsonTree {
    object_of(seq![
        ("SessionKey"@, JsonTree::Str(session_key)),
        ("Functions"@, JsonTree::Array(seq![
            object_of(seq![("name"@, JsonTree::Str("GetMeta"@))]),
            object_of(seq![("name"@, JsonTree::Str("Snapshot"@)),
                ("input"@, object_of(seq![("SnapshotTime"@, int_tree(0))]))]),
        ])),
    ])
}

proof fn lemma_object_of_1(a: (Seq<char>, JsonTree))
    ensures
        object_of(seq![a]) == JsonTree::Object(members_insert(Seq::empty(), a.0, a.1)),
{
    let e0 = Seq::<(Seq<char>, JsonTree)>::empty();
    assert(seq![a].drop_last() == e0);
    assert(members_insert_all(e0, e0) == e0);
}

proof fn lemma_object_of_2(a: (Seq<char>, JsonTree), b: (Seq<char>, JsonTree))
    ensures
        object_of(seq![a, b]) == JsonTree::Object(members_insert(members_insert(Seq::empty(), a.0, a.1), b.0, b.1)),
{
    let s = seq![a, b];
    let e0 = Seq::<(Seq<char>, JsonTree)>::empty();
    assert(s.drop_last() == seq![a]);
    assert(seq![a].drop_last() == e0);
    assert(members_insert_all(e0, e0) == e0);
    assert(members_insert_all(e0, seq![a]) == members_insert(e0, a.0, a.1));
}

/// The body of the commit request, as JSON text.
pub fn commit_body(session_key: &str) -> (r: String)
    ensures
        r@ == json_text(commit_body_json(session_key@)),
{
    let mut f1 = empty_object();
    obj_set(&mut f1, "name", jstr("GetMeta"));
    let mut input = empty_object();
    obj_set(&mut input, "SnapshotTime", jint(0));
    let mut f2 = empty_object();
    obj_set(&mut f2, "name", jstr("Snapshot"));
    obj_set(&mut f2, "input", input);
    let mut fs: Vec<JsonValue> = Vec::new();
    fs.push(f1);
    fs.push(f2);
    proof {
        let v = fs@;
        let v1 = v.drop_last();
        assert(v1.drop_last() =~= Seq::<JsonValue>::empty());
        assert(trees(v1.drop_last()) == Seq::<JsonTree>::empty());
        assert(v1.last() == v[0]);
        assert(trees(v1) =~= seq![tree(v[0])]);
        assert(trees(v) =~= seq![tree(v[0]), tree(v[1])]);
    }
    let functions = JsonValue::Array(fs);
    let mut body = empty_object();
    obj_set(&mut body, "SessionKey", jstr(session_key));
    obj_set(&mut body, "Functions", functions);
    proof {
        lemma_object_of_1(("name"@, JsonTree::Str("GetMeta"@)));
        lemma_object_of_1(("SnapshotTime"@, int_tree(0)));
        lemma_object_of_2(("name"@, JsonTree::Str("Snapshot"@)), ("input"@, object_of(seq![("SnapshotTime"@, int_tree(0))])));
        lemma_object_of_2(("SessionKey"@, JsonTree::Str(session_key@)), ("Functions"@, functions@));
    }
    to_json_string(&body)
}

/// The body of the multipart init request.
pub open spec fn init_body_json(auth: Seq<char>, session_key: Seq<char>) -> JsonTree {
    object_of(seq![("auth"@, JsonTree::Str(auth)), ("session_key"@, JsonTree::Str(session_key)),
        ("callback_url"@, JsonTree::Str(Seq::empty()))])
}

/// The body of the multipart init request, as JSON text.
pub fn init_body(apply: &UploadApplyResult) -> (r: String)
    ensures
        r@ == json_text(init_body_json(apply.upload_auth@, apply.session_key@)),
{
    let mut body = empty_object();
    obj_set(&mut body, "auth", jstr(apply.upload_auth.as_str()));
    obj_set(&mut body, "session_key", jstr(apply.session_key.as_str()));
    obj_set(&mut body, "callback_url", JsonValue::Str(String::new()));
    proof {
        let s = seq![("auth"@, JsonTree::Str(apply.upload_auth@)), ("session_key"@, JsonTree::Str(apply.session_key@)),
            ("callback_url"@, JsonTree::Str(Seq::empty()))];
        let e0 = Seq::<(Seq<char>, JsonTree)>::empty();
        assert(s.drop_last().drop_last().drop_last() == e0);
        assert(members_insert_all(e0, e0) == e0);
        assert(members_insert_all(e0, s.drop_last().drop_last()) == members_insert(e0, s[0].0, s[0].1));
        assert(members_insert_all(e0, s.drop_last()) == members_insert(members_insert_all(e0, s.drop_last().drop_last()), s[1].0, s[1].1));
        assert(members_insert_all(e0, s) == members_insert(members_insert_all(e0, s.drop_last()), s[2].0, s[2].1));
    }
    to_json_string(&body)
}

/// The upload id in the init answer (`data.uploadid`).
pub open spec fn upload_id_of(answer: JsonTree) -> Option<Seq<char>> {
    match answer.get("data"@) {
        Some(d) => d.get_str("uploadid"@),
        None => None,
    }
}

/// The upload id in the init answer.
pub fn get_upload_id(answer: &JsonValue) -> (r: Option<String>)
    ensures
        opt_str_view(r) == upload_id_of(answer@),
{
    match answer.get("data") {
        Some(d) => d.get_str("uploadid"),
        None => None,
    }
}

// ---------------------------------------------------------------------------
// The URL with sorted parameters
// ---------------------------------------------------------------------------

/// Sorted position for `x`: after every item that sorts at or before it.
pub open spec fn str_pos(m: Seq<Seq<char>>, x: Seq<char>) -> nat
    decreases m.len(),
{
    if m.len() > 0 && !key_lt(x, m[0]) { 1 + str_pos(m.subrange(1, m.len() as int), x) } else { 0 }
}

/// The items sorted (by insertion).
pub open spec fn str_sorted(s: Seq<Seq<char>>) -> Seq<Seq<char>>
    decreases s.len(),
{
    if s.len() == 0 {
        Seq::empty()
    } else {
        let m = str_sorted(s.drop_last());
        m.insert(str_pos(m, s.last()) as int, s.last())
    }
}

/// A parameter as `key=value`, both URL encoded.
pub open spec fn param_item(p: (Seq<char>, Seq<char>)) -> Seq<char> {
    url_encoded(encode_utf8(p.0)) + "="@ + url_encoded(encode_utf8(p.1))
}

/// The URL with the parameters encoded, sorted as texts and joined by `&`.
pub open spec fn sorted_url(base: Seq<char>, params: Seq<(Seq<char>, Seq<char>)>) -> Seq<char> {
    let items = str_sorted(params.map_values(|p: (Seq<char>, Seq<char>)| param_item(p)));
    if items.len() == 0 { base } else { base + "?"@ + join_with(items, "&"@) }
}

fn str_pos_exec(m: &Vec<Vec<char>>, x: &[char]) -> (r: usize)
    ensures
        r == str_pos(m@.map_values(|v: Vec<char>| v@), x@),
        r <= m.len(),
{
    let ghost mv = m@.map_values(|v: Vec<char>| v@);
    assert(mv.subrange(0, mv.len() as int) == mv);
    let mut i: usize = 0;
    while i < m.len() && crate::json::key_compare(x, m[i].as_slice()) != -1
        invariant
            i <= m.len(),
            mv == m@.map_values(|v: Vec<char>| v@),
            mv.len() == m@.len(),
            str_pos(mv, x@) == i + str_pos(mv.subrange(i as int, mv.len() as int), x@),
        decreases m.len() - i,
    {
        proof {
            let t = mv.subrange(i as int, mv.len() as int);
            assert(t[0] == mv[i as int]);
            assert(t.subrange(1, t.len() as int) == mv.subrange(i + 1, mv.len() as int));
        }
        i = i + 1;
    }
    proof {
        if i < m.len() {
            let t = mv.subrange(i as int, mv.len() as int);
            assert(t[0] == mv[i as int]);
        }
    }
    i
}

/// The URL `base_url` with the parameters encoded and sorted.
pub fn build_url_with_sorted_params(base_url: &str, params: &Vec<(String, String)>) -> (r: String)
    ensures
        r@ == sorted_url(base_url@, pairs_view(params@)),
{
    let ghost items = pairs_view(params@).map_values(|p: (Seq<char>, Seq<char>)| param_item(p));
    let mut sorted: Vec<Vec<char>> = Vec::new();
    let mut i: usize = 0;
    assert(sorted@.map_values(|v: Vec<char>| v@) =~= str_sorted(items.subrange(0, 0)));
    while i < params.len()
        invariant
            i <= params.len(),
            items == pairs_view(params@).map_values(|p: (Seq<char>, Seq<char>)| param_item(p)),
            items.len() == params@.len(),
            sorted@.map_values(|v: Vec<char>| v@) == str_sorted(items.subrange(0, i as int)),
        decreases params.len() - i,
    {
        let mut item: Vec<char> = Vec::new();
        let k = url_encode(params[i].0.as_str());
        let v = url_encode(params[i].1.as_str());
        push_str(&mut item, k.as_str());
        push_str(&mut item, "=");
        push_str(&mut item, v.as_str());
        assert(item@ == items[i as int]);
        let pos = str_pos_exec(&sorted, item.as_slice());
        let ghost before = sorted@.map_values(|v: Vec<char>| v@);
        let ghost iv = item@;
        sorted.insert(pos, item);
        proof {
            let s1 = items.subrange(0, i + 1);
            assert(s1.drop_last() == items.subrange(0, i as int));
            assert(s1.last() == iv);
            assert(sorted@.map_values(|v: Vec<char>| v@) =~= before.insert(pos as int, iv));
        }
        i = i + 1;
    }
    assert(items.subrange(0, params.len() as int) == items);
    let mut out: Vec<char> = Vec::new();
    push_str(&mut out, base_url);
    if sorted.len() > 0 {
        push_str(&mut out, "?");
        let amp: Vec<char> = vec!['&'];
        proof { reveal_strlit("&"); }
        assert(amp@ == "&"@);
        let q = crate::chars::join_chars(&sorted, amp.as_slice());
        push_chars(&mut out, q.as_slice());
    }
    assert(sorted@.map_values(|v: Vec<char>| v@).len() == sorted@.len());
    string_of(out.as_slice())
}

// ---------------------------------------------------------------------------
// Multipart upload
// ---------------------------------------------------------------------------

/// The number of parts of a file of `file_size` bytes.
pub open spec fn part_count(file_size: nat) -> nat {
    ((file_size + VIDEO_MAX_SIZE - 1) / (VIDEO_MAX_SIZE as int)) as nat
}

/// The parts of a multipart upload in progress: the parts uploaded so far
/// and whether some part failed.
pub struct MultipartUpload {
    pub file_size: u64,
    pub upload_url: String,
    pub upload_id: String,
    pub uploaded: Vec<PartInfo>,
    pub failed: bool,
}

/// The URL that a part is sent to.
pub open spec fn part_url_text(upload_url: Seq<char>, part_number: nat, offset: nat, upload_id: Seq<char>) -> Seq<char> {
    upload_url + "?phase=transfer&part_number="@ + dec(part_number) + "&part_offset="@ + dec(offset)
        + "&uploadid="@ + upload_id
}

/// `number:crc` for each part, separated by commas.
pub open spec fn part_info_text(parts: Seq<PartInfo>) -> Seq<char> {
    join_with(parts.map_values(|p: PartInfo| crate::numfmt::dec_int(p.part_number as int) + ":"@ + p.crc32@), ","@)
}

/// Where `x` goes among parts in order of number: after every leading part
/// numbered at or below it.
pub open spec fn part_pos(m: Seq<PartInfo>, x: i32) -> nat
    decreases m.len(),
{
    if m.len() > 0 && m[0].part_number <= x { 1 + part_pos(m.subrange(1, m.len() as int), x) } else { 0 }
}

/// The parts in order of their numbers, parts with equal numbers in the
/// order they were given (insertion sort).
pub open spec fn parts_by_number(s: Seq<PartInfo>) -> Seq<PartInfo>
    decreases s.len(),
{
    if s.len() == 0 {
        Seq::empty()
    } else {
        let m = parts_by_number(s.drop_last());
        m.insert(part_pos(m, s.last().part_number) as int, s.last())
    }
}

fn part_pos_exec(m: &Vec<PartInfo>, x: i32) -> (r: usize)
    ensures
        r == part_pos(m@, x),
        r <= m.len(),
{
    assert(m@.subrange(0, m@.len() as int) == m@);
    let mut i: usize = 0;
    while i < m.len() && m[i].part_number <= x
        invariant
            i <= m.len(),
            part_pos(m@, x) == i + part_pos(m@.subrange(i as int, m@.len() as int), x),
        decreases m.len() - i,
    {
        proof {
            let t = m@.subrange(i as int, m@.len() as int);
            assert(t[0] == m@[i as int]);
            assert(t.subrange(1, t.len() as int) == m@.subrange(i + 1, m@.len() as int));
        }
        i = i + 1;
    }
    proof {
        if i < m.len() {
            let t = m@.subrange(i as int, m@.len() as int);
            assert(t[0] == m@[i as int]);
        }
    }
    i
}

/// The parts sorted by number (stable).
fn sort_parts(parts: &Vec<PartInfo>) -> (r: Vec<PartInfo>)
    ensures
        r@ == parts_by_number(parts@),
{
    let mut sorted: Vec<PartInfo> = Vec::new();
    let mut i: usize = 0;
    assert(sorted@ =~= parts_by_number(parts@.subrange(0, 0)));
    while i < parts.len()
        invariant
            i <= parts.len(),
            sorted@ == parts_by_number(parts@.subrange(0, i as int)),
        decreases parts.len() - i,
    {
        let p = PartInfo { part_number: parts[i].part_number, crc32: parts[i].crc32.clone() };
        assert(p == parts@[i as int]);
        let pos = part_pos_exec(&sorted, p.part_number);
        sorted.insert(pos, p);
        proof {
            let s1 = parts@.subrange(0, i + 1);
            assert(s1.drop_last() == parts@.subrange(0, i as int));
            assert(s1.last() == parts@[i as int]);
        }
        i = i + 1;
    }
    assert(parts@.subrange(0, parts.len() as int) == parts@);
    sorted
}

/// Whether the parts are in ascending order of number.
pub open spec fn parts_ascending(s: Seq<PartInfo>) -> bool {
    forall|i: int, j: int| 0 <= i < j < s.len() ==> s[i].part_number <= s[j].part_number
}

proof fn lemma_part_pos(m: Seq<PartInfo>, x: i32)
    requires
        parts_ascending(m),
    ensures
        part_pos(m, x) <= m.len(),
        forall|k: int| 0 <= k < part_pos(m, x) ==> #[trigger] m[k].part_number <= x,
        forall|k: int| part_pos(m, x) <= k < m.len() ==> #[trigger] m[k].part_number > x,
    decreases m.len(),
{
    if m.len() > 0 {
        let t = m.subrange(1, m.len() as int);
        lemma_part_pos(t, x);
        if m[0].part_number <= x {
            assert forall|k: int| 0 <= k < part_pos(m, x) implies #[trigger] m[k].part_number <= x by {
                if k > 0 { assert(m[k] == t[k - 1]); }
            }
            assert forall|k: int| part_pos(m, x) <= k < m.len() implies #[trigger] m[k].part_number > x by {
                assert(m[k] == t[k - 1]);
            }
        } else {
            assert forall|k: int| part_pos(m, x) <= k < m.len() implies #[trigger] m[k].part_number > x by {
                assert(m[0].part_number <= m[k].part_number);
            }
        }
    }
}

/// The parts of the completion text are in ascending order of their
/// numbers, and they are exactly the uploaded parts, each as often as it
/// was uploaded.
pub proof fn law_parts_by_number(s: Seq<PartInfo>)
    ensures
        parts_ascending(parts_by_number(s)),
        parts_by_number(s).to_multiset() == s.to_multiset(),
    decreases s.len(),
{
    broadcast use vstd::seq_lib::to_multiset_insert, vstd::seq_lib::to_multiset_build;
    if s.len() == 0 {
        assert(parts_by_number(s) =~= s);
    } else {
        let m = parts_by_number(s.drop_last());
        law_parts_by_number(s.drop_last());
        let x = s.last();
        let p = part_pos(m, x.part_number);
        lemma_part_pos(m, x.part_number);
        let r = m.insert(p as int, x);
        assert forall|i: int, j: int| 0 <= i < j < r.len() implies r[i].part_number <= r[j].part_number by {
            if j < p {
            } else if j == p {
                assert(r[i] == m[i]);
            } else if i < p {
                assert(r[j] == m[j - 1]);
            } else if i == p {
                assert(r[j] == m[j - 1]);
            } else {
                assert(r[i] == m[i - 1]);
                assert(r[j] == m[j - 1]);
            }
        }
        assert(s.drop_last().push(x) =~= s);
    }
}

/// The size of part `i` of a file of `file_size` bytes: a whole part, or
/// what remains of the file when less remains.
pub open spec fn part_size(file_size: nat, i: nat) -> int {
    if VIDEO_MAX_SIZE <= file_size - i * VIDEO_MAX_SIZE { VIDEO_MAX_SIZE as int } else { file_size - i * VIDEO_MAX_SIZE }
}

/// The parts of a multipart upload cover the file: each starts inside the
/// file, each but the last is a whole part, and the last one ends where
/// the file ends.
pub proof fn law_parts_cover_file(file_size: nat, i: nat)
    requires
        i < part_count(file_size),
    ensures
        i * VIDEO_MAX_SIZE < file_size,
        i + 1 < part_count(file_size) ==> part_size(file_size, i) == VIDEO_MAX_SIZE
            && (i + 1) * VIDEO_MAX_SIZE < file_size,
        i + 1 == part_count(file_size) ==> i * VIDEO_MAX_SIZE + part_size(file_size, i) == file_size,
{
    let m = VIDEO_MAX_SIZE as int;
    let x = file_size + m - 1;
    let q = x / m;
    let r = x % m;
    vstd::arithmetic::div_mod::lemma_fundamental_div_mod(x, m);
    assert(0 <= r < m);
    assert(m * q == q * m) by (nonlinear_arith);
    assert(q * m >= file_size);
    assert((q - 1) * m == q * m - m) by (nonlinear_arith);
    assert((q - 1) * m < file_size);
    assert(i * m <= (q - 1) * m) by (nonlinear_arith)
        requires i <= q - 1, m > 0;
    if i + 1 < q {
        assert((i + 1) * m <= (q - 1) * m) by (nonlinear_arith)
            requires i + 1 <= q - 1, m > 0;
        assert((i + 1) * m == i * m + m) by (nonlinear_arith);
    }
    if i + 1 == q {
        assert((i + 1) * m == i * m + m) by (nonlinear_arith);
    }
}

impl MultipartUpload {
    /// A multipart upload of a file of `file_size` bytes (more than one
    /// part's worth), with the upload id from the init answer.
    pub fn new(file_size: u64, upload_url: String, upload_id: String) -> (r: Self)
        ensures
            r.file_size == file_size,
            r.upload_url == upload_url,
            r.upload_id == upload_id,
            r.uploaded@.len() == 0,
            !r.failed,
    {
        MultipartUpload { file_size, upload_url, upload_id, uploaded: Vec::new(), failed: false }
    }

    /// The number of parts.
    pub fn total_parts(&self) -> (r: u64)
        ensures
            r == part_count(self.file_size as nat),
    {
        (self.file_size / VIDEO_MAX_SIZE) + if self.file_size % VIDEO_MAX_SIZE > 0 { 1 } else { 0 }
    }

    /// The part with index `i`: its number (from 1), its offset and its size
    /// (a full part, or what remains for the last).
    pub fn part(&self, i: u64) -> (r: (i32, u64, u64))
        requires
            i < part_count(self.file_size as nat),
            i < 0x7fff_ffff,
        ensures
            r.0 == i + 1,
            r.1 == i * VIDEO_MAX_SIZE,
            r.2 == part_size(self.file_size as nat, i as nat),
    {
        assert(i * VIDEO_MAX_SIZE < self.file_size) by (nonlinear_arith)
            requires
                i < ((self.file_size + VIDEO_MAX_SIZE - 1) / (VIDEO_MAX_SIZE as int)),
        ;
        let offset = i * VIDEO_MAX_SIZE;
        let rest = self.file_size - offset;
        let size = if VIDEO_MAX_SIZE <= rest { VIDEO_MAX_SIZE } else { rest };
        ((i + 1) as i32, offset, size)
    }

    /// The URL that a part is sent to.
    pub fn part_url(&self, part_number: i32, offset: u64) -> (r: String)
        requires
            part_number >= 0,
        ensures
            r@ == part_url_text(self.upload_url@, part_number as nat, offset as nat, self.upload_id@),
    {
        let mut out: Vec<char> = Vec::new();
        push_str(&mut out, self.upload_url.as_str());
        push_str(&mut out, "?phase=transfer&part_number=");
        push_dec(&mut out, part_number as u128);
        push_str(&mut out, "&part_offset=");
        push_dec(&mut out, offset as u128);
        push_str(&mut out, "&uploadid=");
        push_str(&mut out, self.upload_id.as_str());
        assert(out@ =~= part_url_text(self.upload_url@, part_number as nat, offset as nat, self.upload_id@));
        string_of(out.as_slice())
    }

    /// Records how a part's transfer ended: an accepted part (status 200 or
    /// 201) is kept with its check value; another status marks a failure.
    pub fn record(&mut self, part_number: i32, crc32: String, accepted: bool)
        ensures
            final(self).file_size == old(self).file_size,
            final(self).upload_url == old(self).upload_url,
            final(self).upload_id == old(self).upload_id,
            accepted ==> final(self).uploaded@ == old(self).uploaded@.push(PartInfo { part_number, crc32 })
                && final(self).failed == old(self).failed,
            !accepted ==> final(self).uploaded@ == old(self).uploaded@ && final(self).failed,
    {
        if accepted {
            self.uploaded.push(PartInfo { part_number, crc32 });
        } else {
            self.failed = true;
        }
    }

    /// The completion text, `number:crc` for each uploaded part in order of
    /// number; when parts failed and none was uploaded, the error that all
    /// parts failed.
    pub fn finish(&self) -> (r: Result<String, String>)
        ensures
            self.failed && self.uploaded@.len() == 0 ==> (r matches Err(e) && e@ == "所有分片上传失败"@),
            !(self.failed && self.uploaded@.len() == 0)
                ==> (r matches Ok(t) && t@ == part_info_text(parts_by_number(self.uploaded@))),
    {
        if self.failed && self.uploaded.len() == 0 {
            return Err(String::from_str("所有分片上传失败"));
        }
        let sorted = sort_parts(&self.uploaded);
        let ghost all = sorted@.map_values(|p: PartInfo| crate::numfmt::dec_int(p.part_number as int) + ":"@ + p.crc32@);
        let mut items: Vec<Vec<char>> = Vec::new();
        let mut i: usize = 0;
        while i < sorted.len()
            invariant
                i <= sorted.len(),
                all == sorted@.map_values(|p: PartInfo| crate::numfmt::dec_int(p.part_number as int) + ":"@ + p.crc32@),
                items@.map_values(|x: Vec<char>| x@) == all.subrange(0, i as int),
            decreases sorted.len() - i,
        {
            let mut item: Vec<char> = Vec::new();
            crate::numfmt::push_dec_i64(&mut item, sorted[i].part_number as i64);
            push_str(&mut item, ":");
            push_str(&mut item, sorted[i].crc32.as_str());
            let ghost before = items@.map_values(|x: Vec<char>| x@);
            let ghost iv = item@;
            items.push(item);
            assert(items@.map_values(|x: Vec<char>| x@) =~= before.push(iv));
            assert(all.subrange(0, i + 1) =~= all.subrange(0, i as int).push(all[i as int]));
            i = i + 1;
        }
        assert(all.subrange(0, sorted.len() as int) == all);
        let comma: Vec<char> = vec![','];
        proof { reveal_strlit(","); }
        assert(comma@ == ","@);
        let j = crate::chars::join_chars(&items, comma.as_slice());
        Ok(string_of(j.as_slice()))
    }
}

// ---------------------------------------------------------------------------
// Request headers and the reading of answers
// ---------------------------------------------------------------------------

/// The headers of the multipart init request.
pub open spec fn multipart_init_headers_list(authorization: Seq<char>, user_agent: Seq<char>, third_id: Seq<char>)
    -> Seq<(Seq<char>, Seq<char>)> {
    crate::vod_uploader::init_headers_list(authorization, user_agent, third_id).push(("Content-Type"@, "application/json"@))
}

impl VideoUploader {
    /// The parameters of the apply request for a file of `file_size` bytes,
    /// with a fresh random 32-bit number in hexadecimal as `s`.
    pub fn apply_params(&self, file_size: u64) -> (r: Vec<(String, String)>)
        ensures
            exists|n: u32| pairs_view(r@) == #[trigger] apply_params_list(file_size, self.third_id@, hexn(n as nat)),
            keys_distinct(pairs_view(r@)),
    {
        let n = crate::douyin_utils::random_u32();
        let s = hex_u32(n);
        let r = apply_upload_params(file_size, self.third_id.as_str(), s.as_str());
        assert(pairs_view(r@) == apply_params_list(file_size, self.third_id@, hexn(n as nat)));
        r
    }

    /// The headers of the apply request.
    pub fn apply_headers(&self) -> (r: Vec<(String, String)>)
        ensures
            pairs_view(r@) == crate::vod_uploader::apply_headers_list(self.user_agent@),
            keys_distinct(pairs_view(r@)),
    {
        let mut v: Vec<(String, String)> = Vec::new();
        assert(pairs_view(v@) =~= Seq::<(Seq<char>, Seq<char>)>::empty());
        push_pair(&mut v, "User-Agent", self.user_agent.as_str());
        push_pair(&mut v, "Referer", "https://creator.douyin.com/");
        push_pair(&mut v, "Sec-Gpc", "1");
        assert(pairs_view(v@) =~= crate::vod_uploader::apply_headers_list(self.user_agent@));
        proof { lemma_apply_headers_list_keys(self.user_agent@); }
        v
    }

    /// The headers of the commit request.
    pub fn commit_headers(&self) -> (r: Vec<(String, String)>)
        ensures
            pairs_view(r@) == crate::vod_uploader::commit_headers_list(self.user_agent@),
            keys_distinct(pairs_view(r@)),
    {
        let mut v: Vec<(String, String)> = Vec::new();
        assert(pairs_view(v@) =~= Seq::<(Seq<char>, Seq<char>)>::empty());
        push_pair(&mut v, "User-Agent", self.user_agent.as_str());
        push_pair(&mut v, "Referer", "https://creator.douyin.com/");
        push_pair(&mut v, "Content-Type", "application/json");
        assert(pairs_view(v@) =~= crate::vod_uploader::commit_headers_list(self.user_agent@));
        proof { lemma_commit_headers_list_keys(self.user_agent@); }
        v
    }

    /// The headers of the multipart init request.
    pub fn multipart_init_headers(&self, authorization: &str) -> (r: Vec<(String, String)>)
        ensures
            pairs_view(r@) == multipart_init_headers_list(authorization@, self.user_agent@, self.third_id@),
            keys_distinct(pairs_view(r@)),
    {
        let mut v: Vec<(String, String)> = Vec::new();
        assert(pairs_view(v@) =~= Seq::<(Seq<char>, Seq<char>)>::empty());
        push_pair(&mut v, "Authorization", authorization);
        push_pair(&mut v, "Referer", "https://creator.douyin.com/");
        push_pair(&mut v, "Sec-Gpc", "1");
        push_pair(&mut v, "User-Agent", self.user_agent.as_str());
        push_pair(&mut v, "X-Logical-Part-Mode", "logical_part");
        push_pair(&mut v, "X-Storage-Mode", "gateway");
        push_pair(&mut v, "X-Storage-U", self.third_id.as_str());
        push_pair(&mut v, "Content-Type", "application/json");
        assert(pairs_view(v@) =~= multipart_init_headers_list(authorization@, self.user_agent@, self.third_id@));
        proof { lemma_multipart_init_headers_list_keys(authorization@, self.user_agent@, self.third_id@); }
        v
    }

    /// The headers of a part's transfer of `length` bytes with check value
    /// `crc32`.
    pub fn part_headers(&self, authorization: &str, length: u64, crc32: &str) -> (r: Vec<(String, String)>)
        ensures
            pairs_view(r@) == crate::vod_uploader::chunk_headers_list(authorization@, length as nat, crc32@,
                self.third_id@, self.user_agent@),
            keys_distinct(pairs_view(r@)),
    {
        let mut v: Vec<(String, String)> = Vec::new();
        assert(pairs_view(v@) =~= Seq::<(Seq<char>, Seq<char>)>::empty());
        push_pair(&mut v, "Authorization", authorization);
        push_pair(&mut v, "Content-Type", "application/octet-stream");
        let len = string_of(crate::numfmt::dec_chars(length as u128).as_slice());
        push_pair(&mut v, "Content-Length", len.as_str());
        push_pair(&mut v, "Content-CRC32", crc32);
        push_pair(&mut v, "X-Storage-U", self.third_id.as_str());
        push_pair(&mut v, "Referer", "https://creator.douyin.com/");
        push_pair(&mut v, "User-Agent", self.user_agent.as_str());
        push_pair(&mut v, "X-Logical-Part-Mode", "logical_part");
        push_pair(&mut v, "X-Storage-Mode", "gateway");
        assert(pairs_view(v@) =~= crate::vod_uploader::chunk_headers_list(authorization@, length as nat, crc32@,
            self.third_id@, self.user_agent@));
        proof { lemma_chunk_headers_list_keys(authorization@, length as nat, crc32@, self.third_id@, self.user_agent@); }
        v
    }

    /// The headers of the multipart completion request.
    pub fn complete_headers(&self, authorization: &str) -> (r: Vec<(String, String)>)
        ensures
            pairs_view(r@) == crate::vod_uploader::finish_headers_list(authorization@, self.user_agent@),
            keys_distinct(pairs_view(r@)),
    {
        let mut v: Vec<(String, String)> = Vec::new();
        assert(pairs_view(v@) =~= Seq::<(Seq<char>, Seq<char>)>::empty());
        push_pair(&mut v, "Authorization", authorization);
        push_pair(&mut v, "Content-Type", "text/plain;charset=UTF-8");
        push_pair(&mut v, "Referer", "https://creator.douyin.com/");
        push_pair(&mut v, "User-Agent", self.user_agent.as_str());
        push_pair(&mut v, "X-Logical-Part-Mode", "logical_part");
        push_pair(&mut v, "X-Storage-Mode", "gateway");
        assert(pairs_view(v@) =~= crate::vod_uploader::finish_headers_list(authorization@, self.user_agent@));
        proof { lemma_finish_headers_list_keys(authorization@, self.user_agent@); }
        v
    }
}

/// What the apply answer's text gives: `解析JSON失败: ` and the reason when
/// it is not JSON, the reported error, or the upload address and keys.
pub open spec fn spec_read_apply(text: Seq<char>) -> Result<(Seq<char>, Seq<char>, Seq<char>, Seq<char>), Seq<char>> {
    match crate::json::spec_parse_json(text) {
        Err(e) => Err("解析JSON失败: "@ + e),
        Ok(t) => match answer_error(t) {
            Some(m) => Err(m),
            None => spec_apply_result(t),
        },
    }
}

/// Reads the apply answer's text.
pub fn read_apply_answer(text: &str) -> (r: Result<UploadApplyResult, String>)
    ensures
        match r {
            Ok(a) => spec_read_apply(text@) == Ok::<(Seq<char>, Seq<char>, Seq<char>, Seq<char>), Seq<char>>(
                (a.upload_url@, a.upload_auth@, a.video_id@, a.session_key@)),
            Err(e) => spec_read_apply(text@) == Err::<(Seq<char>, Seq<char>, Seq<char>, Seq<char>), Seq<char>>(e@),
        },
{
    let v = match crate::json::parse_json(text) {
        Ok(v) => v,
        Err(e) => { return Err(String::from_str("解析JSON失败: ").concat(e.as_str())); },
    };
    match check_error(&v) {
        Err(m) => { return Err(m); },
        Ok(()) => {},
    }
    parse_upload_apply_result(&v)
}

/// Reads the commit answer's text: `解析JSON失败: ` and the reason when it
/// is not JSON, the reported error, or success.
pub fn read_commit_answer(text: &str) -> (r: Result<(), String>)
    ensures
        match crate::json::spec_parse_json(text@) {
            Err(e) => r matches Err(m) && m@ == "解析JSON失败: "@ + e,
            Ok(t) => match answer_error(t) {
                Some(m) => r matches Err(x) && x@ == m,
                None => r is Ok,
            },
        },
{
    let v = match crate::json::parse_json(text) {
        Ok(v) => v,
        Err(e) => { return Err(String::from_str("解析JSON失败: ").concat(e.as_str())); },
    };
    check_error(&v)
}

/// Reads the multipart init answer (its status, the status's text, and
/// the body): the upload id, or why there is none.
pub fn read_init_answer(status_ok: bool, status: &str, text: &str) -> (r: Result<String, String>)
    ensures
        !status_ok ==> (r matches Err(m) && m@ == "初始化分片上传失败: HTTP "@ + status@ + ", 响应: "@ + text@),
        status_ok && text@.len() == 0 ==> (r matches Err(m) && m@ == "初始化分片上传响应为空"@),
        status_ok && text@.len() > 0 ==> match crate::json::spec_parse_json(text@) {
            Err(e) => r matches Err(m) && m@ == "解析初始化响应失败: "@ + e,
            Ok(t) => match upload_id_of(t) {
                Some(id) => r matches Ok(x) && x@ == id,
                None => r matches Err(m) && m@ == "获取UploadId失败"@,
            },
        },
{
    if !status_ok {
        return Err(String::from_str("初始化分片上传失败: HTTP ").concat(status).concat(", 响应: ").concat(text));
    }
    if text.is_empty() {
        return Err(String::from_str("初始化分片上传响应为空"));
    }
    let v = match crate::json::parse_json(text) {
        Ok(v) => v,
        Err(e) => { return Err(String::from_str("解析初始化响应失败: ").concat(e.as_str())); },
    };
    match get_upload_id(&v) {
        Some(id) => Ok(id),
        None => Err(String::from_str("获取UploadId失败")),
    }
}

proof fn lemma_apply_params_list_keys(file_size: u64, third_id: Seq<char>, s: Seq<char>)
    ensures
        keys_distinct(apply_params_list(file_size, third_id, s)),
{
    let l = apply_params_list(file_size, third_id, s);
    reveal_strlit("Action"); reveal_strlit("Version"); reveal_strlit("SpaceName"); reveal_strlit("FileType"); reveal_strlit("IsInner"); reveal_strlit("FileSize"); reveal_strlit("app_id"); reveal_strlit("user_id"); reveal_strlit("s");
    assert(l[0].0.len() != l[1].0.len());
    assert(l[0].0.len() != l[2].0.len());
    assert(l[0].0.len() != l[3].0.len());
    assert(l[0].0.len() != l[4].0.len());
    assert(l[0].0.len() != l[5].0.len());
    assert(l[0].0[0] != l[6].0[0]);
    assert(l[0].0.len() != l[7].0.len());
    assert(l[0].0.len() != l[8].0.len());
    assert(l[1].0.len() != l[2].0.len());
    assert(l[1].0.len() != l[3].0.len());
    assert(l[1].0[0] != l[4].0[0]);
    assert(l[1].0.len() != l[5].0.len());
    assert(l[1].0.len() != l[6].0.len());
    assert(l[1].0[0] != l[7].0[0]);
    assert(l[1].0.len() != l[8].0.len());
    assert(l[2].0.len() != l[3].0.len());
    assert(l[2].0.len() != l[4].0.len());
    assert(l[2].0.len() != l[5].0.len());
    assert(l[2].0.len() != l[6].0.len());
    assert(l[2].0.len() != l[7].0.len());
    assert(l[2].0.len() != l[8].0.len());
    assert(l[3].0.len() != l[4].0.len());
    assert(l[3].0[4] != l[5].0[4]);
    assert(l[3].0.len() != l[6].0.len());
    assert(l[3].0.len() != l[7].0.len());
    assert(l[3].0.len() != l[8].0.len());
    assert(l[4].0.len() != l[5].0.len());
    assert(l[4].0.len() != l[6].0.len());
    assert(l[4].0[0] != l[7].0[0]);
    assert(l[4].0.len() != l[8].0.len());
    assert(l[5].0.len() != l[6].0.len());
    assert(l[5].0.len() != l[7].0.len());
    assert(l[5].0.len() != l[8].0.len());
    assert(l[6].0.len() != l[7].0.len());
    assert(l[6].0.len() != l[8].0.len());
    assert(l[7].0.len() != l[8].0.len());
    assert forall|i: int, j: int| 0 <= i < j < l.len() implies #[trigger] l[i].0 != #[trigger] l[j].0 by {
        if i == 0 && j == 1 {
        } else if i == 0 && j == 2 {
        } else if i == 0 && j == 3 {
        } else if i == 0 && j == 4 {
        } else if i == 0 && j == 5 {
        } else if i == 0 && j == 6 {
        } else if i == 0 && j == 7 {
        } else if i == 0 && j == 8 {
        } else if i == 1 && j == 2 {
        } else if i == 1 && j == 3 {
        } else if i == 1 && j == 4 {
        } else if i == 1 && j == 5 {
        } else if i == 1 && j == 6 {
        } else if i == 1 && j == 7 {
        } else if i == 1 && j == 8 {
        } else if i == 2 && j == 3 {
        } else if i == 2 && j == 4 {
        } else if i == 2 && j == 5 {
        } else if i == 2 && j == 6 {
        } else if i == 2 && j == 7 {
        } else if i == 2 && j == 8 {
        } else if i == 3 && j == 4 {
        } else if i == 3 && j == 5 {
        } else if i == 3 && j == 6 {
        } else if i == 3 && j == 7 {
        } else if i == 3 && j == 8 {
        } else if i == 4 && j == 5 {
        } else if i == 4 && j == 6 {
        } else if i == 4 && j == 7 {
        } else if i == 4 && j == 8 {
        } else if i == 5 && j == 6 {
        } else if i == 5 && j == 7 {
        } else if i == 5 && j == 8 {
        } else if i == 6 && j == 7 {
        } else if i == 6 && j == 8 {
        } else if i == 7 && j == 8 {
        }
    }
}

proof fn lemma_commit_params_list_keys(third_id: Seq<char>)
    ensures
        keys_distinct(commit_params_list(third_id)),
{
    let l = commit_params_list(third_id);
    reveal_strlit("Action"); reveal_strlit("SpaceName"); reveal_strlit("Version"); reveal_strlit("app_id"); reveal_strlit("user_id");
    assert(l[0].0.len() != l[1].0.len());
    assert(l[0].0.len() != l[2].0.len());
    assert(l[0].0[0] != l[3].0[0]);
    assert(l[0].0.len() != l[4].0.len());
    assert(l[1].0.len() != l[2].0.len());
    assert(l[1].0.len() != l[3].0.len());
    assert(l[1].0.len() != l[4].0.len());
    assert(l[2].0.len() != l[3].0.len());
    assert(l[2].0[0] != l[4].0[0]);
    assert(l[3].0.len() != l[4].0.len());
    assert forall|i: int, j: int| 0 <= i < j < l.len() implies #[trigger] l[i].0 != #[trigger] l[j].0 by {
        if i == 0 && j == 1 {
        } else if i == 0 && j == 2 {
        } else if i == 0 && j == 3 {
        } else if i == 0 && j == 4 {
        } else if i == 1 && j == 2 {
        } else if i == 1 && j == 3 {
        } else if i == 1 && j == 4 {
        } else if i == 2 && j == 3 {
        } else if i == 2 && j == 4 {
        } else if i == 3 && j == 4 {
        }
    }
}

proof fn lemma_apply_headers_list_keys(user_agent: Seq<char>)
    ensures
        keys_distinct(crate::vod_uploader::apply_headers_list(user_agent)),
{
    let l = crate::vod_uploader::apply_headers_list(user_agent);
    reveal_strlit("User-Agent"); reveal_strlit("Referer"); reveal_strlit("Sec-Gpc");
    assert(l[0].0.len() != l[1].0.len());
    assert(l[0].0.len() != l[2].0.len());
    assert(l[1].0[0] != l[2].0[0]);
    assert forall|i: int, j: int| 0 <= i < j < l.len() implies #[trigger] l[i].0 != #[trigger] l[j].0 by {
        if i == 0 && j == 1 {
        } else if i == 0 && j == 2 {
        } else if i == 1 && j == 2 {
        }
    }
}

proof fn lemma_commit_headers_list_keys(user_agent: Seq<char>)
    ensures
        keys_distinct(crate::vod_uploader::commit_headers_list(user_agent)),
{
    let l = crate::vod_uploader::commit_headers_list(user_agent);
    reveal_strlit("User-Agent"); reveal_strlit("Referer"); reveal_strlit("Content-Type");
    assert(l[0].0.len() != l[1].0.len());
    assert(l[0].0.len() != l[2].0.len());
    assert(l[1].0.len() != l[2].0.len());
    assert forall|i: int, j: int| 0 <= i < j < l.len() implies #[trigger] l[i].0 != #[trigger] l[j].0 by {
        if i == 0 && j == 1 {
        } else if i == 0 && j == 2 {
        } else if i == 1 && j == 2 {
        }
    }
}

proof fn lemma_multipart_init_headers_list_keys(authorization: Seq<char>, user_agent: Seq<char>, third_id: Seq<char>)
    ensures
        keys_distinct(multipart_init_headers_list(authorization, user_agent, third_id)),
{
    let l = multipart_init_headers_list(authorization, user_agent, third_id);
    reveal_strlit("Authorization"); reveal_strlit("Referer"); reveal_strlit("Sec-Gpc"); reveal_strlit("User-Agent"); reveal_strlit("X-Logical-Part-Mode"); reveal_strlit("X-Storage-Mode"); reveal_strlit("X-Storage-U"); reveal_strlit("Content-Type");
    assert(l[0].0.len() != l[1].0.len());
    assert(l[0].0.len() != l[2].0.len());
    assert(l[0].0.len() != l[3].0.len());
    assert(l[0].0.len() != l[4].0.len());
    assert(l[0].0.len() != l[5].0.len());
    assert(l[0].0.len() != l[6].0.len());
    assert(l[0].0.len() != l[7].0.len());
    assert(l[1].0[0] != l[2].0[0]);
    assert(l[1].0.len() != l[3].0.len());
    assert(l[1].0.len() != l[4].0.len());
    assert(l[1].0.len() != l[5].0.len());
    assert(l[1].0.len() != l[6].0.len());
    assert(l[1].0.len() != l[7].0.len());
    assert(l[2].0.len() != l[3].0.len());
    assert(l[2].0.len() != l[4].0.len());
    assert(l[2].0.len() != l[5].0.len());
    assert(l[2].0.len() != l[6].0.len());
    assert(l[2].0.len() != l[7].0.len());
    assert(l[3].0.len() != l[4].0.len());
    assert(l[3].0.len() != l[5].0.len());
    assert(l[3].0.len() != l[6].0.len());
    assert(l[3].0.len() != l[7].0.len());
    assert(l[4].0.len() != l[5].0.len());
    assert(l[4].0.len() != l[6].0.len());
    assert(l[4].0.len() != l[7].0.len());
    assert(l[5].0.len() != l[6].0.len());
    assert(l[5].0.len() != l[7].0.len());
    assert(l[6].0.len() != l[7].0.len());
    assert forall|i: int, j: int| 0 <= i < j < l.len() implies #[trigger] l[i].0 != #[trigger] l[j].0 by {
        if i == 0 && j == 1 {
        } else if i == 0 && j == 2 {
        } else if i == 0 && j == 3 {
        } else if i == 0 && j == 4 {
        } else if i == 0 && j == 5 {
        } else if i == 0 && j == 6 {
        } else if i == 0 && j == 7 {
        } else if i == 1 && j == 2 {
        } else if i == 1 && j == 3 {
        } else if i == 1 && j == 4 {
        } else if i == 1 && j == 5 {
        } else if i == 1 && j == 6 {
        } else if i == 1 && j == 7 {
        } else if i == 2 && j == 3 {
        } else if i == 2 && j == 4 {
        } else if i == 2 && j == 5 {
        } else if i == 2 && j == 6 {
        } else if i == 2 && j == 7 {
        } else if i == 3 && j == 4 {
        } else if i == 3 && j == 5 {
        } else if i == 3 && j == 6 {
        } else if i == 3 && j == 7 {
        } else if i == 4 && j == 5 {
        } else if i == 4 && j == 6 {
        } else if i == 4 && j == 7 {
        } else if i == 5 && j == 6 {
        } else if i == 5 && j == 7 {
        } else if i == 6 && j == 7 {
        }
    }
}

proof fn lemma_chunk_headers_list_keys(authorization: Seq<char>, length: nat, crc32: Seq<char>,     third_id: Seq<char>, user_agent: Seq<char>)
    ensures
        keys_distinct(crate::vod_uploader::chunk_headers_list(authorization, length, crc32, third_id, user_agent)),
{
    let l = crate::vod_uploader::chunk_headers_list(authorization, length, crc32, third_id, user_agent);
    reveal_strlit("Authorization"); reveal_strlit("Content-Type"); reveal_strlit("Content-Length"); reveal_strlit("Content-CRC32"); reveal_strlit("X-Storage-U"); reveal_strlit("Referer"); reveal_strlit("User-Agent"); reveal_strlit("X-Logical-Part-Mode"); reveal_strlit("X-Storage-Mode");
    assert(l[0].0.len() != l[1].0.len());
    assert(l[0].0.len() != l[2].0.len());
    assert(l[0].0[0] != l[3].0[0]);
    assert(l[0].0.len() != l[4].0.len());
    assert(l[0].0.len() != l[5].0.len());
    assert(l[0].0.len() != l[6].0.len());
    assert(l[0].0.len() != l[7].0.len());
    assert(l[0].0.len() != l[8].0.len());
    assert(l[1].0.len() != l[2].0.len());
    assert(l[1].0.len() != l[3].0.len());
    assert(l[1].0.len() != l[4].0.len());
    assert(l[1].0.len() != l[5].0.len());
    assert(l[1].0.len() != l[6].0.len());
    assert(l[1].0.len() != l[7].0.len());
    assert(l[1].0.len() != l[8].0.len());
    assert(l[2].0.len() != l[3].0.len());
    assert(l[2].0.len() != l[4].0.len());
    assert(l[2].0.len() != l[5].0.len());
    assert(l[2].0.len() != l[6].0.len());
    assert(l[2].0.len() != l[7].0.len());
    assert(l[2].0[0] != l[8].0[0]);
    assert(l[3].0.len() != l[4].0.len());
    assert(l[3].0.len() != l[5].0.len());
    assert(l[3].0.len() != l[6].0.len());
    assert(l[3].0.len() != l[7].0.len());
    assert(l[3].0.len() != l[8].0.len());
    assert(l[4].0.len() != l[5].0.len());
    assert(l[4].0.len() != l[6].0.len());
    assert(l[4].0.len() != l[7].0.len());
    assert(l[4].0.len() != l[8].0.len());
    assert(l[5].0.len() != l[6].0.len());
    assert(l[5].0.len() != l[7].0.len());
    assert(l[5].0.len() != l[8].0.len());
    assert(l[6].0.len() != l[7].0.len());
    assert(l[6].0.len() != l[8].0.len());
    assert(l[7].0.len() != l[8].0.len());
    assert forall|i: int, j: int| 0 <= i < j < l.len() implies #[trigger] l[i].0 != #[trigger] l[j].0 by {
        if i == 0 && j == 1 {
        } else if i == 0 && j == 2 {
        } else if i == 0 && j == 3 {
        } else if i == 0 && j == 4 {
        } else if i == 0 && j == 5 {
        } else if i == 0 && j == 6 {
        } else if i == 0 && j == 7 {
        } else if i == 0 && j == 8 {
        } else if i == 1 && j == 2 {
        } else if i == 1 && j == 3 {
        } else if i == 1 && j == 4 {
        } else if i == 1 && j == 5 {
        } else if i == 1 && j == 6 {
        } else if i == 1 && j == 7 {
        } else if i == 1 && j == 8 {
        } else if i == 2 && j == 3 {
        } else if i == 2 && j == 4 {
        } else if i == 2 && j == 5 {
        } else if i == 2 && j == 6 {
        } else if i == 2 && j == 7 {
        } else if i == 2 && j == 8 {
        } else if i == 3 && j == 4 {
        } else if i == 3 && j == 5 {
        } else if i == 3 && j == 6 {
        } else if i == 3 && j == 7 {
        } else if i == 3 && j == 8 {
        } else if i == 4 && j == 5 {
        } else if i == 4 && j == 6 {
        } else if i == 4 && j == 7 {
        } else if i == 4 && j == 8 {
        } else if i == 5 && j == 6 {
        } else if i == 5 && j == 7 {
        } else if i == 5 && j == 8 {
        } else if i == 6 && j == 7 {
        } else if i == 6 && j == 8 {
        } else if i == 7 && j == 8 {
        }
    }
}

proof fn lemma_finish_headers_list_keys(authorization: Seq<char>, user_agent: Seq<char>)
    ensures
        keys_distinct(crate::vod_uploader::finish_headers_list(authorization, user_agent)),
{
    let l = crate::vod_uploader::finish_headers_list(authorization, user_agent);
    reveal_strlit("Authorization"); reveal_strlit("Content-Type"); reveal_strlit("Referer"); reveal_strlit("User-Agent"); reveal_strlit("X-Logical-Part-Mode"); reveal_strlit("X-Storage-Mode");
    assert(l[0].0.len() != l[1].0.len());
    assert(l[0].0.len() != l[2].0.len());
    assert(l[0].0.len() != l[3].0.len());
    assert(l[0].0.len() != l[4].0.len());
    assert(l[0].0.len() != l[5].0.len());
    assert(l[1].0.len() != l[2].0.len());
    assert(l[1].0.len() != l[3].0.len());
    assert(l[1].0.len() != l[4].0.len());
    assert(l[1].0.len() != l[5].0.len());
    assert(l[2].0.len() != l[3].0.len());
    assert(l[2].0.len() != l[4].0.len());
    assert(l[2].0.len() != l[5].0.len());
    assert(l[3].0.len() != l[4].0.len());
    assert(l[3].0.len() != l[5].0.len());
    assert(l[4].0.len() != l[5].0.len());
    assert forall|i: int, j: int| 0 <= i < j < l.len() implies #[trigger] l[i].0 != #[trigger] l[j].0 by {
        if i == 0 && j == 1 {
        } else if i == 0 && j == 2 {
        } else if i == 0 && j == 3 {
        } else if i == 0 && j == 4 {
        } else if i == 0 && j == 5 {
        } else if i == 1 && j == 2 {
        } else if i == 1 && j == 3 {
        } else if i == 1 && j == 4 {
        } else if i == 1 && j == 5 {
        } else if i == 2 && j == 3 {
        } else if i == 2 && j == 4 {
        } else if i == 2 && j == 5 {
        } else if i == 3 && j == 4 {
        } else if i == 3 && j == 5 {
        } else if i == 4 && j == 5 {
        }
    }
}

proof fn lemma_credentials_keys(auth: Seq<(String, JsonValue)>)
    ensures
        keys_distinct(credentials_list(auth)),
{
    let ak = auth_str(auth, "AccessKeyID"@);
    let sk = auth_str(auth, "SecretAccessKey"@);
    let st = auth_str(auth, "SessionToken"@);
    reveal_strlit("ak"); reveal_strlit("sk"); reveal_strlit("st"); reveal_strlit("sv");
    assert("ak"@[0] != "sk"@[0] && "ak"@[0] != "st"@[0] && "ak"@[0] != "sv"@[0]);
    assert("sk"@[1] != "st"@[1] && "sk"@[1] != "sv"@[1] && "st"@[1] != "sv"@[1]);
    let e = Seq::<(Seq<char>, Seq<char>)>::empty();
    let k0 = Seq::<Seq<char>>::empty();
    let k1 = k0.push("ak"@);
    let k2 = k1.push("sk"@);
    let k3 = k2.push("st"@);
    let o1: Option<Seq<char>> = if ak.len() > 0 { Some(ak) } else { None };
    let o2: Option<Seq<char>> = if sk.len() > 0 { Some(sk) } else { None };
    let o3: Option<Seq<char>> = if st.len() > 0 { Some(st) } else { None };
    let o4 = auth_opt_str(auth, "SignatureVersion"@);
    lemma_push_fresh_key(e, "ak"@, o1, k0);
    let c1 = match o1 { Some(v) => e.push(("ak"@, v)), None => e };
    assert forall|i: int| 0 <= i < c1.len() implies k1.contains(#[trigger] c1[i].0) by {
        assert(k1[0] == "ak"@);
    }
    assert(!k1.contains("sk"@)) by { assert forall|i: int| 0 <= i < 1 implies k1[i] != "sk"@ by {} }
    lemma_push_fresh_key(c1, "sk"@, o2, k1);
    let c2 = match o2 { Some(v) => c1.push(("sk"@, v)), None => c1 };
    assert forall|i: int| 0 <= i < c2.len() implies k2.contains(#[trigger] c2[i].0) by {
        assert(k2[0] == "ak"@ && k2[1] == "sk"@);
        if i < c1.len() { assert(c2[i] == c1[i]); assert(k1.contains(c1[i].0)); }
    }
    assert(!k2.contains("st"@)) by { assert forall|i: int| 0 <= i < 2 implies k2[i] != "st"@ by { if i == 0 {} else {} } }
    lemma_push_fresh_key(c2, "st"@, o3, k2);
    let c3 = match o3 { Some(v) => c2.push(("st"@, v)), None => c2 };
    assert forall|i: int| 0 <= i < c3.len() implies k3.contains(#[trigger] c3[i].0) by {
        assert(k3[0] == "ak"@ && k3[1] == "sk"@ && k3[2] == "st"@);
        if i < c2.len() { assert(c3[i] == c2[i]); assert(k2.contains(c2[i].0)); }
    }
    assert(!k3.contains("sv"@)) by { assert forall|i: int| 0 <= i < 3 implies k3[i] != "sv"@ by { if i == 0 {} else if i == 1 {} else {} } }
    lemma_push_fresh_key(c3, "sv"@, o4, k3);
    let c4 = match o4 { Some(v) => c3.push(("sv"@, v)), None => c3 };
    assert(c1 == (if ak.len() > 0 { seq![("ak"@, ak)] } else { Seq::empty() }));
    if ak.len() == 0 {
        let s1 = crate::signature_v4::pairs_set(c4, "ak"@, Seq::empty());
        let s2 = crate::signature_v4::pairs_set(s1, "sk"@, Seq::empty());
        crate::signature_v4::law_pair_set_keeps_keys_distinct(c4, "ak"@, Seq::empty());
        crate::signature_v4::law_pair_set_keeps_keys_distinct(s1, "sk"@, Seq::empty());
        crate::signature_v4::law_pair_set_keeps_keys_distinct(s2, "st"@, Seq::empty());
    }
}

} // verus!
