//! The publisher's uploader for the VOD service: the signed apply and commit
//! requests, reading the upload address from the apply answer, the chunk
//! plan of a large file and the text that completes a chunked upload. The
//! transfers themselves are made by the caller.

use vstd::prelude::*;
use crate::chars::{string_of, push_str, join_with};
use crate::douyin_api::{UploadAuth, BdTicketConfig};
use crate::json::{JsonValue, JsonTree, trees, lemma_trees_index};
use crate::model::PlatformError;
use crate::numfmt::dec;
use crate::signature_v4::{pairs_view, keys_distinct};
use crate::video_upload::{VIDEO_MAX_SIZE, apply_params_list, apply_upload_params, hexn, hex_u32, push_pair};

verus! {

/// The service's base URL.
pub open spec fn vod_base() -> Seq<char> {
    "https://vod.bytedanceapi.com/"@
}

/// The uploader of one account.
pub struct VideoUploader {
    pub upload_auth: UploadAuth,
    pub third_id: String,
    pub user_agent: String,
    pub bd_ticket_config: BdTicketConfig,
}

/// The signing credentials of `auth` for the VOD service.
pub open spec fn vod_credentials(auth: UploadAuth) -> Seq<(Seq<char>, Seq<char>)> {
    seq![("ak"@, auth.access_key_id@), ("sk"@, auth.secret_access_key@), ("st"@, auth.session_token@),
        ("region"@, "cn-north-1"@), ("service"@, "vod"@)]
}

/// The headers of the apply request.
pub open spec fn apply_headers_list(user_agent: Seq<char>) -> Seq<(Seq<char>, Seq<char>)> {
    seq![("User-Agent"@, user_agent), ("Referer"@, "https://creator.douyin.com/"@), ("Sec-Gpc"@, "1"@)]
}

/// The headers of the commit request.
pub open spec fn commit_headers_list(user_agent: Seq<char>) -> Seq<(Seq<char>, Seq<char>)> {
    seq![("User-Agent"@, user_agent), ("Referer"@, "https://creator.douyin.com/"@),
        ("Content-Type"@, "application/json"@)]
}

impl VideoUploader {
    /// An uploader with the upload credentials of an account.
    pub fn new(upload_auth: UploadAuth, third_id: String, user_agent: String, bd_ticket_config: BdTicketConfig) -> (r: Self)
        ensures
            r.upload_auth == upload_auth,
            r.third_id == third_id,
            r.user_agent == user_agent,
            r.bd_ticket_config == bd_ticket_config,
    {
        VideoUploader { upload_auth, third_id, user_agent, bd_ticket_config }
    }

    /// The signing credentials.
    pub fn credentials(&self) -> (r: Vec<(String, String)>)
        ensures
            pairs_view(r@) == vod_credentials(self.upload_auth),
            keys_distinct(pairs_view(r@)),
    {
        let mut v: Vec<(String, String)> = Vec::new();
        assert(pairs_view(v@) =~= Seq::<(Seq<char>, Seq<char>)>::empty());
        push_pair(&mut v, "ak", self.upload_auth.access_key_id.as_str());
        push_pair(&mut v, "sk", self.upload_auth.secret_access_key.as_str());
        push_pair(&mut v, "st", self.upload_auth.session_token.as_str());
        push_pair(&mut v, "region", "cn-north-1");
        push_pair(&mut v, "service", "vod");
        assert(pairs_view(v@) =~= vod_credentials(self.upload_auth));
        proof { lemma_vod_credentials_keys(self.upload_auth); }
        v
    }

    /// The headers of the apply request.
    pub fn apply_headers(&self) -> (r: Vec<(String, String)>)
        ensures
            pairs_view(r@) == apply_headers_list(self.user_agent@),
            keys_distinct(pairs_view(r@)),
    {
        let mut v: Vec<(String, String)> = Vec::new();
        assert(pairs_view(v@) =~= Seq::<(Seq<char>, Seq<char>)>::empty());
        push_pair(&mut v, "User-Agent", self.user_agent.as_str());
        push_pair(&mut v, "Referer", "https://creator.douyin.com/");
        push_pair(&mut v, "Sec-Gpc", "1");
        assert(pairs_view(v@) =~= apply_headers_list(self.user_agent@));
        proof { lemma_apply_headers_list_keys(self.user_agent@); }
        v
    }

    /// The parameters of the apply request for a file of `file_size` bytes,
    /// with a fresh random number in hexadecimal as `s`.
    pub fn apply_params(&self, file_size: u64) -> (r: Vec<(String, String)>)
        ensures
            exists|n: u32| pairs_view(r@) == #[trigger] apply_params_list(file_size, self.third_id@, hexn(n as nat)),
            keys_distinct(pairs_view(r@)),
    {
        let n = crate::douyin_utils::random_u32();
        let s = hex_u32(n);
        let r = apply_upload_params(file_size, self.third_id.as_str(), s.as_str());
        assert(pairs_view(r@) == apply_params_list(file_size, self.third_id@, hexn(n as nat)));
        r
    }

    /// The headers of the commit request.
    pub fn commit_headers(&self) -> (r: Vec<(String, String)>)
        ensures
            pairs_view(r@) == commit_headers_list(self.user_agent@),
            keys_distinct(pairs_view(r@)),
    {
        let mut v: Vec<(String, String)> = Vec::new();
        assert(pairs_view(v@) =~= Seq::<(Seq<char>, Seq<char>)>::empty());
        push_pair(&mut v, "User-Agent", self.user_agent.as_str());
        push_pair(&mut v, "Referer", "https://creator.douyin.com/");
        push_pair(&mut v, "Content-Type", "application/json");
        assert(pairs_view(v@) =~= commit_headers_list(self.user_agent@));
        proof { lemma_commit_headers_list_keys(self.user_agent@); }
        v
    }
}

/// The URL of the apply request.
pub fn apply_url() -> (r: String)
    ensures
        r@ == vod_base() + "?Action=ApplyUploadInner&Version=2020-11-19"@,
{
    String::from_str("https://vod.bytedanceapi.com/").concat("?Action=ApplyUploadInner&Version=2020-11-19")
}

/// The URL of the commit request.
pub fn commit_url() -> (r: String)
    ensures
        r@ == vod_base() + "?Action=CommitUploadInner&Version=2020-11-19"@,
{
    String::from_str("https://vod.bytedanceapi.com/").concat("?Action=CommitUploadInner&Version=2020-11-19")
}

// ---------------------------------------------------------------------------
// Reading the apply answer
// ---------------------------------------------------------------------------

/// The message of the error the answer reports in `ResponseMetadata.Error`:
/// its `Message` text (empty when not a string), or `获取失败` without one.
pub open spec fn reported_error(data: JsonTree) -> Option<Seq<char>> {
    match data.get("ResponseMetadata"@) {
        Some(meta) => match meta.get("Error"@) {
            Some(err) => Some(match err.get("Message"@) {
                Some(m) => match m.as_str() { Some(t) => t, None => Seq::empty() },
                None => "获取失败"@,
            }),
            None => None,
        },
        None => None,
    }
}

/// The array member `k`.
pub open spec fn array_member(t: JsonTree, k: Seq<char>) -> Option<Seq<JsonTree>> {
    match t.get(k) {
        Some(v) => v.as_array(),
        None => None,
    }
}

/// What the apply answer gives: the upload address (`https://` host
/// `/upload/v1/` store URI), the upload authorization, the video id and the
/// session key, from the first upload node and its first store; a reported
/// error, and each missing piece, fails with its own message.
pub open spec fn spec_apply_inner(data: JsonTree) -> Result<(Seq<char>, Seq<char>, Seq<char>, Seq<char>), Seq<char>> {
    match reported_error(data) {
        Some(m) => Err(m + " [上传凭证]"@),
        None => match data.get("Result"@) {
            None => Err("无效的响应格式"@),
            Some(result) => match result.get("InnerUploadAddress"@) {
                None => Err("获取InnerUploadAddress失败"@),
                Some(inner) => match array_member(inner, "UploadNodes"@) {
                    None => Err("获取UploadNodes失败"@),
                    Some(nodes) => if nodes.len() == 0 { Err("上传节点为空"@) } else {
                        let node = nodes[0];
                        match node.get_str("UploadHost"@) {
                            None => Err("获取UploadHost失败"@),
                            Some(host) => match array_member(node, "StoreInfos"@) {
                                None => Err("获取StoreInfos失败"@),
                                Some(stores) => if stores.len() == 0 { Err("存储信息为空"@) } else {
                                    let store = stores[0];
                                    match (store.get_str("StoreUri"@), store.get_str("Auth"@),
                                        node.get_str("Vid"@), node.get_str("SessionKey"@)) {
                                        (None, _, _, _) => Err("获取StoreUri失败"@),
                                        (Some(_), None, _, _) => Err("获取Auth失败"@),
                                        (Some(_), Some(_), None, _) => Err("获取Vid失败"@),
                                        (Some(_), Some(_), Some(_), None) => Err("获取SessionKey失败"@),
                                        (Some(uri), Some(auth), Some(vid), Some(sk)) =>
                                            Ok(("https://"@ + host + "/upload/v1/"@ + uri, auth, vid, sk)),
                                    }
                                },
                            },
                        }
                    },
                },
            },
        },
    }
}

fn reported_error_exec(data: &JsonValue) -> (r: Option<String>)
    ensures
        match r {
            Some(m) => reported_error(data@) == Some(m@),
            None => reported_error(data@) is None,
        },
{
    match data.get("ResponseMetadata") {
        Some(meta) => match meta.get("Error") {
            Some(err) => Some(match err.get("Message") {
                Some(m) => match m.as_str() { Some(t) => t.clone(), None => String::new() },
                None => String::from_str("获取失败"),
            }),
            None => None,
        },
        None => None,
    }
}

fn array_member_exec<'a>(t: &'a JsonValue, k: &str) -> (r: Option<&'a Vec<JsonValue>>)
    ensures
        match r {
            Some(a) => array_member(t@, k@) == Some(trees(a@)),
            None => array_member(t@, k@) is None,
        },
{
    match t.get(k) {
        Some(v) => v.as_array(),
        None => None,
    }
}

fn upload_failed(m: &str) -> (r: PlatformError)
    ensures
        r matches PlatformError::VideoUploadFailed(t) && t@ == m@,
{
    PlatformError::VideoUploadFailed(String::from_str(m))
}

/// Reads the apply answer: the upload address, the upload authorization,
/// the video id and the session key.
pub fn parse_apply_inner(data: &JsonValue) -> (r: Result<(String, String, String, String), PlatformError>)
    ensures
        match r {
            Ok(t) => spec_apply_inner(data@) == Ok::<(Seq<char>, Seq<char>, Seq<char>, Seq<char>), Seq<char>>(
                (t.0@, t.1@, t.2@, t.3@)),
            Err(e) => e matches PlatformError::VideoUploadFailed(m)
                && spec_apply_inner(data@) == Err::<(Seq<char>, Seq<char>, Seq<char>, Seq<char>), Seq<char>>(m@),
        },
{
    match reported_error_exec(data) {
        Some(m) => { return Err(PlatformError::VideoUploadFailed(m.concat(" [上传凭证]"))); },
        None => {},
    }
    let result = match data.get("Result") {
        Some(x) => x,
        None => { return Err(upload_failed("无效的响应格式")); },
    };
    let inner = match result.get("InnerUploadAddress") {
        Some(x) => x,
        None => { return Err(upload_failed("获取InnerUploadAddress失败")); },
    };
    let nodes = match array_member_exec(inner, "UploadNodes") {
        Some(a) => a,
        None => { return Err(upload_failed("获取UploadNodes失败")); },
    };
    if nodes.len() == 0 {
        return Err(upload_failed("上传节点为空"));
    }
    proof { lemma_trees_index(nodes@); }
    let node = &nodes[0];
    let host = match node.get_str("UploadHost") {
        Some(x) => x,
        None => { return Err(upload_failed("获取UploadHost失败")); },
    };
    let stores = match array_member_exec(node, "StoreInfos") {
        Some(a) => a,
        None => { return Err(upload_failed("获取StoreInfos失败")); },
    };
    if stores.len() == 0 {
        return Err(upload_failed("存储信息为空"));
    }
    proof { lemma_trees_index(stores@); }
    let store = &stores[0];
    let uri = match store.get_str("StoreUri") {
        Some(x) => x,
        None => { return Err(upload_failed("获取StoreUri失败")); },
    };
    let auth = match store.get_str("Auth") {
        Some(x) => x,
        None => { return Err(upload_failed("获取Auth失败")); },
    };
    let vid = match node.get_str("Vid") {
        Some(x) => x,
        None => { return Err(upload_failed("获取Vid失败")); },
    };
    let sk = match node.get_str("SessionKey") {
        Some(x) => x,
        None => { return Err(upload_failed("获取SessionKey失败")); },
    };
    let url = String::from_str("https://").concat(host.as_str()).concat("/upload/v1/").concat(uri.as_str());
    Ok((url, auth, vid, sk))
}

// ---------------------------------------------------------------------------
// Plain and chunked transfers
// ---------------------------------------------------------------------------

/// The decimal text of `n`.
fn dec_text(n: u64) -> (r: String)
    ensures
        r@ == dec(n as nat),
{
    string_of(crate::numfmt::dec_chars(n as u128).as_slice())
}

/// The headers of a whole-file transfer of `length` bytes with check value
/// `crc32`.
pub open spec fn little_headers_list(authorization: Seq<char>, length: nat, crc32: Seq<char>,
    user_agent: Seq<char>, third_id: Seq<char>) -> Seq<(Seq<char>, Seq<char>)> {
    seq![("Authorization"@, authorization), ("Content-Length"@, dec(length)), ("Content-CRC32"@, crc32),
        ("Referer"@, "https://creator.douyin.com/"@), ("User-Agent"@, user_agent),
        ("X-Logical-Part-Mode"@, "logical_part"@), ("X-Storage-U"@, third_id)]
}

/// The number of chunks sent for a file of `file_size` bytes: the number of
/// whole chunks in it. A shorter tail is not counted, so it is not sent.
pub fn chunk_count(file_size: u64) -> (r: u64)
    requires
        file_size + VIDEO_MAX_SIZE - 1 <= u64::MAX,
    ensures
        r == file_size / VIDEO_MAX_SIZE,
{
    let last = file_size % VIDEO_MAX_SIZE;
    let rounded_up = (file_size + (VIDEO_MAX_SIZE - 1)) / VIDEO_MAX_SIZE;
    proof {
        let m = VIDEO_MAX_SIZE as int;
        let q = file_size as int / m;
        vstd::arithmetic::div_mod::lemma_fundamental_div_mod(file_size as int, m);
        assert(m * q == q * m) by (nonlinear_arith);
        if last > 0 {
            assert((file_size + m - 1) as int == (q + 1) * m + (last - 1)) by (nonlinear_arith)
                requires file_size as int == m * q + last, m * q == q * m;
            vstd::arithmetic::div_mod::lemma_fundamental_div_mod_converse((file_size + m - 1) as int, m, q + 1, last - 1);
        } else {
            assert((file_size + m - 1) as int == q * m + (m - 1)) by (nonlinear_arith)
                requires file_size as int == m * q + last, last == 0, m * q == q * m;
            vstd::arithmetic::div_mod::lemma_fundamental_div_mod_converse((file_size + m - 1) as int, m, q, m - 1);
        }
    }
    if last > 0 { rounded_up - 1 } else { rounded_up }
}

/// The size of the chunk starting at `start` of a file of `file_size` bytes
/// sent in `count` chunks: for the last chunk, when `count` is not the number
/// of whole chunks, the rest of the file; otherwise a whole chunk, or the
/// rest of the file when less remains.
pub open spec fn chunk_size(file_size: nat, count: nat, index: nat) -> nat {
    let start = index * VIDEO_MAX_SIZE;
    if index == count - 1 && count != file_size / (VIDEO_MAX_SIZE as nat) {
        (file_size - start) as nat
    } else if start + VIDEO_MAX_SIZE <= file_size {
        VIDEO_MAX_SIZE as nat
    } else {
        (file_size - start) as nat
    }
}

/// The chunk with index `index` (from 0) of a file of `file_size` bytes sent
/// in `count` chunks: its part number (from 1), where it starts and its size.
pub fn chunk(file_size: u64, count: u64, index: u64) -> (r: (u64, u64, u64))
    requires
        index < count,
        index * VIDEO_MAX_SIZE <= file_size,
        file_size + VIDEO_MAX_SIZE <= u64::MAX,
    ensures
        r.0 == index + 1,
        r.1 == index * VIDEO_MAX_SIZE,
        r.2 == chunk_size(file_size as nat, count as nat, index as nat),
{
    let start = index * VIDEO_MAX_SIZE;
    let size = if index == count - 1 && count != file_size / VIDEO_MAX_SIZE {
        file_size - start
    } else if start + VIDEO_MAX_SIZE <= file_size {
        VIDEO_MAX_SIZE
    } else {
        file_size - start
    };
    (index + 1, start, size)
}

/// The query parameters of a chunk transfer.
pub open spec fn chunk_params_list(part_number: nat, start: nat, upload_id: Seq<char>) -> Seq<(Seq<char>, Seq<char>)> {
    seq![("phase"@, "transfer"@), ("part_number"@, dec(part_number)), ("part_offset"@, dec(start)),
        ("uploadid"@, upload_id)]
}

/// The headers of a chunk transfer of `length` bytes with check value `crc32`.
pub open spec fn chunk_headers_list(authorization: Seq<char>, length: nat, crc32: Seq<char>,
    third_id: Seq<char>, user_agent: Seq<char>) -> Seq<(Seq<char>, Seq<char>)> {
    seq![("Authorization"@, authorization), ("Content-Type"@, "application/octet-stream"@),
        ("Content-Length"@, dec(length)), ("Content-CRC32"@, crc32), ("X-Storage-U"@, third_id),
        ("Referer"@, "https://creator.douyin.com/"@), ("User-Agent"@, user_agent),
        ("X-Logical-Part-Mode"@, "logical_part"@), ("X-Storage-Mode"@, "gateway"@)]
}

/// The query parameters of the chunked upload's init request.
pub open spec fn init_params_list() -> Seq<(Seq<char>, Seq<char>)> {
    seq![("uploadmode"@, "part"@), ("phase"@, "init"@)]
}

/// The headers of the chunked upload's init request.
pub open spec fn init_headers_list(authorization: Seq<char>, user_agent: Seq<char>, third_id: Seq<char>) -> Seq<(Seq<char>, Seq<char>)> {
    seq![("Authorization"@, authorization), ("Referer"@, "https://creator.douyin.com/"@), ("Sec-Gpc"@, "1"@),
        ("User-Agent"@, user_agent), ("X-Logical-Part-Mode"@, "logical_part"@),
        ("X-Storage-Mode"@, "gateway"@), ("X-Storage-U"@, third_id)]
}

/// The query parameters of the chunked upload's finish request.
pub open spec fn finish_params_list(upload_id: Seq<char>) -> Seq<(Seq<char>, Seq<char>)> {
    seq![("uploadmode"@, "part"@), ("phase"@, "finish"@), ("uploadid"@, upload_id)]
}

/// The headers of the chunked upload's finish request.
pub open spec fn finish_headers_list(authorization: Seq<char>, user_agent: Seq<char>) -> Seq<(Seq<char>, Seq<char>)> {
    seq![("Authorization"@, authorization), ("Content-Type"@, "text/plain;charset=UTF-8"@),
        ("Referer"@, "https://creator.douyin.com/"@), ("User-Agent"@, user_agent),
        ("X-Logical-Part-Mode"@, "logical_part"@), ("X-Storage-Mode"@, "gateway"@)]
}

impl VideoUploader {
    /// The headers of a whole-file transfer of `length` bytes.
    pub fn little_headers(&self, authorization: &str, length: u64, crc32: &str) -> (r: Vec<(String, String)>)
        ensures
            pairs_view(r@) == little_headers_list(authorization@, length as nat, crc32@, self.user_agent@, self.third_id@),
            keys_distinct(pairs_view(r@)),
    {
        let mut v: Vec<(String, String)> = Vec::new();
        assert(pairs_view(v@) =~= Seq::<(Seq<char>, Seq<char>)>::empty());
        push_pair(&mut v, "Authorization", authorization);
        let len = dec_text(length);
        push_pair(&mut v, "Content-Length", len.as_str());
        push_pair(&mut v, "Content-CRC32", crc32);
        push_pair(&mut v, "Referer", "https://creator.douyin.com/");
        push_pair(&mut v, "User-Agent", self.user_agent.as_str());
        push_pair(&mut v, "X-Logical-Part-Mode", "logical_part");
        push_pair(&mut v, "X-Storage-U", self.third_id.as_str());
        assert(pairs_view(v@) =~= little_headers_list(authorization@, length as nat, crc32@, self.user_agent@, self.third_id@));
        proof { lemma_little_headers_list_keys(authorization@, length as nat, crc32@, self.user_agent@, self.third_id@); }
        v
    }

    /// The headers of a chunk transfer of `length` bytes.
    pub fn chunk_headers(&self, authorization: &str, length: u64, crc32: &str) -> (r: Vec<(String, String)>)
        ensures
            pairs_view(r@) == chunk_headers_list(authorization@, length as nat, crc32@, self.third_id@, self.user_agent@),
            keys_distinct(pairs_view(r@)),
    {
        let mut v: Vec<(String, String)> = Vec::new();
        assert(pairs_view(v@) =~= Seq::<(Seq<char>, Seq<char>)>::empty());
        push_pair(&mut v, "Authorization", authorization);
        push_pair(&mut v, "Content-Type", "application/octet-stream");
        let len = dec_text(length);
        push_pair(&mut v, "Content-Length", len.as_str());
        push_pair(&mut v, "Content-CRC32", crc32);
        push_pair(&mut v, "X-Storage-U", self.third_id.as_str());
        push_pair(&mut v, "Referer", "https://creator.douyin.com/");
        push_pair(&mut v, "User-Agent", self.user_agent.as_str());
        push_pair(&mut v, "X-Logical-Part-Mode", "logical_part");
        push_pair(&mut v, "X-Storage-Mode", "gateway");
        assert(pairs_view(v@) =~= chunk_headers_list(authorization@, length as nat, crc32@, self.third_id@, self.user_agent@));
        proof { lemma_chunk_headers_list_keys(authorization@, length as nat, crc32@, self.third_id@, self.user_agent@); }
        v
    }

    /// The headers of the chunked upload's init request.
    pub fn init_headers(&self, authorization: &str) -> (r: Vec<(String, String)>)
        ensures
            pairs_view(r@) == init_headers_list(authorization@, self.user_agent@, self.third_id@),
            keys_distinct(pairs_view(r@)),
    {
        let mut v: Vec<(String, String)> = Vec::new();
        assert(pairs_view(v@) =~= Seq::<(Seq<char>, Seq<char>)>::empty());
        push_pair(&mut v, "Authorization", authorization);
        push_pair(&mut v, "Referer", "https://creator.douyin.com/");
        push_pair(&mut v, "Sec-Gpc", "1");
        push_pair(&mut v, "User-Agent", self.user_agent.as_str());
        push_pair(&mut v, "X-Logical-Part-Mode", "logical_part");
        push_pair(&mut v, "X-Storage-Mode", "gateway");
        push_pair(&mut v, "X-Storage-U", self.third_id.as_str());
        assert(pairs_view(v@) =~= init_headers_list(authorization@, self.user_agent@, self.third_id@));
        proof { lemma_init_headers_list_keys(authorization@, self.user_agent@, self.third_id@); }
        v
    }

    /// The headers of the chunked upload's finish request.
    pub fn finish_headers(&self, authorization: &str) -> (r: Vec<(String, String)>)
        ensures
            pairs_view(r@) == finish_headers_list(authorization@, self.user_agent@),
            keys_distinct(pairs_view(r@)),
    {
        let mut v: Vec<(String, String)> = Vec::new();
        assert(pairs_view(v@) =~= Seq::<(Seq<char>, Seq<char>)>::empty());
        push_pair(&mut v, "Authorization", authorization);
        push_pair(&mut v, "Content-Type", "text/plain;charset=UTF-8");
        push_pair(&mut v, "Referer", "https://creator.douyin.com/");
        push_pair(&mut v, "User-Agent", self.user_agent.as_str());
        push_pair(&mut v, "X-Logical-Part-Mode", "logical_part");
        push_pair(&mut v, "X-Storage-Mode", "gateway");
        assert(pairs_view(v@) =~= finish_headers_list(authorization@, self.user_agent@));
        proof { lemma_finish_headers_list_keys(authorization@, self.user_agent@); }
        v
    }
}

/// The query parameters of a chunk transfer.
pub fn chunk_params(part_number: u64, start: u64, upload_id: &str) -> (r: Vec<(String, String)>)
    ensures
        pairs_view(r@) == chunk_params_list(part_number as nat, start as nat, upload_id@),
        keys_distinct(pairs_view(r@)),
{
    let mut v: Vec<(String, String)> = Vec::new();
    assert(pairs_view(v@) =~= Seq::<(Seq<char>, Seq<char>)>::empty());
    push_pair(&mut v, "phase", "transfer");
    let n = dec_text(part_number);
    push_pair(&mut v, "part_number", n.as_str());
    let o = dec_text(start);
    push_pair(&mut v, "part_offset", o.as_str());
    push_pair(&mut v, "uploadid", upload_id);
    assert(pairs_view(v@) =~= chunk_params_list(part_number as nat, start as nat, upload_id@));
    proof { lemma_chunk_params_list_keys(part_number as nat, start as nat, upload_id@); }
    v
}

/// The query parameters of the chunked upload's init request.
pub fn init_params() -> (r: Vec<(String, String)>)
    ensures
        pairs_view(r@) == init_params_list(),
        keys_distinct(pairs_view(r@)),
{
    let mut v: Vec<(String, String)> = Vec::new();
    assert(pairs_view(v@) =~= Seq::<(Seq<char>, Seq<char>)>::empty());
    push_pair(&mut v, "uploadmode", "part");
    push_pair(&mut v, "phase", "init");
    assert(pairs_view(v@) =~= init_params_list());
    proof { lemma_init_params_list_keys(); }
    v
}

/// The query parameters of the chunked upload's finish request.
pub fn finish_params(upload_id: &str) -> (r: Vec<(String, String)>)
    ensures
        pairs_view(r@) == finish_params_list(upload_id@),
        keys_distinct(pairs_view(r@)),
{
    let mut v: Vec<(String, String)> = Vec::new();
    assert(pairs_view(v@) =~= Seq::<(Seq<char>, Seq<char>)>::empty());
    push_pair(&mut v, "uploadmode", "part");
    push_pair(&mut v, "phase", "finish");
    push_pair(&mut v, "uploadid", upload_id);
    assert(pairs_view(v@) =~= finish_params_list(upload_id@));
    proof { lemma_finish_params_list_keys(upload_id@); }
    v
}

/// The upload id of the init answer (`data.uploadid`).
pub fn init_upload_id(data: &JsonValue) -> (r: Result<String, PlatformError>)
    ensures
        match crate::video_upload::upload_id_of(data@) {
            Some(id) => r matches Ok(s) && s@ == id,
            None => r matches Err(PlatformError::VideoUploadFailed(m)) && m@ == "初始化分片上传失败"@,
        },
{
    match crate::video_upload::get_upload_id(data) {
        Some(id) => Ok(id),
        None => Err(upload_failed("初始化分片上传失败")),
    }
}

// ---------------------------------------------------------------------------
// Completing a chunked upload
// ---------------------------------------------------------------------------

/// A sent chunk: its part number and its check value.
pub struct ChunkInfo {
    pub part_number: u64,
    pub crc32: String,
}

/// Where `x` goes among chunks in order of number: after every leading chunk
/// numbered at or below it.
pub open spec fn chunk_pos(m: Seq<ChunkInfo>, x: u64) -> nat
    decreases m.len(),
{
    if m.len() > 0 && m[0].part_number <= x { 1 + chunk_pos(m.subrange(1, m.len() as int), x) } else { 0 }
}

/// The chunks in order of their numbers, chunks with equal numbers in the
/// order they were given (insertion sort).
pub open spec fn chunks_by_number(s: Seq<ChunkInfo>) -> Seq<ChunkInfo>
    decreases s.len(),
{
    if s.len() == 0 {
        Seq::empty()
    } else {
        let m = chunks_by_number(s.drop_last());
        m.insert(chunk_pos(m, s.last().part_number) as int, s.last())
    }
}

/// `number:check value` for each chunk, joined by commas.
pub open spec fn part_info(chunks: Seq<ChunkInfo>) -> Seq<char> {
    join_with(chunks.map_values(|c: ChunkInfo| dec(c.part_number as nat) + ":"@ + c.crc32@), ","@)
}

/// Whether the chunks are in ascending order of number.
pub open spec fn numbers_ascending(s: Seq<ChunkInfo>) -> bool {
    forall|i: int, j: int| 0 <= i < j < s.len() ==> s[i].part_number <= s[j].part_number
}

fn chunk_pos_exec(m: &Vec<ChunkInfo>, x: u64) -> (r: usize)
    ensures
        r == chunk_pos(m@, x),
        r <= m.len(),
{
    assert(m@.subrange(0, m@.len() as int) == m@);
    let mut i: usize = 0;
    while i < m.len() && m[i].part_number <= x
        invariant
            i <= m.len(),
            chunk_pos(m@, x) == i + chunk_pos(m@.subrange(i as int, m@.len() as int), x),
        decreases m.len() - i,
    {
        proof {
            let t = m@.subrange(i as int, m@.len() as int);
            assert(t[0] == m@[i as int]);
            assert(t.subrange(1, t.len() as int) == m@.subrange(i + 1, m@.len() as int));
        }
        i = i + 1;
    }
    proof {
        if i < m.len() {
            let t = m@.subrange(i as int, m@.len() as int);
            assert(t[0] == m@[i as int]);
        }
    }
    i
}

/// The body of the finish request: `number:check value` of each sent chunk,
/// in order of number, joined by commas.
pub fn finish_body(chunks: &Vec<ChunkInfo>) -> (r: String)
    ensures
        r@ == part_info(chunks_by_number(chunks@)),
{
    let mut sorted: Vec<ChunkInfo> = Vec::new();
    let mut i: usize = 0;
    assert(sorted@ =~= chunks_by_number(chunks@.subrange(0, 0)));
    while i < chunks.len()
        invariant
            i <= chunks.len(),
            sorted@ == chunks_by_number(chunks@.subrange(0, i as int)),
        decreases chunks.len() - i,
    {
        let c = ChunkInfo { part_number: chunks[i].part_number, crc32: chunks[i].crc32.clone() };
        assert(c == chunks@[i as int]);
        let pos = chunk_pos_exec(&sorted, c.part_number);
        let ghost before = sorted@;
        sorted.insert(pos, c);
        proof {
            let s1 = chunks@.subrange(0, i + 1);
            assert(s1.drop_last() == chunks@.subrange(0, i as int));
            assert(s1.last() == chunks@[i as int]);
        }
        i = i + 1;
    }
    assert(chunks@.subrange(0, chunks.len() as int) == chunks@);
    let ghost all = sorted@.map_values(|c: ChunkInfo| dec(c.part_number as nat) + ":"@ + c.crc32@);
    let mut items: Vec<Vec<char>> = Vec::new();
    let mut k: usize = 0;
    while k < sorted.len()
        invariant
            k <= sorted.len(),
            all == sorted@.map_values(|c: ChunkInfo| dec(c.part_number as nat) + ":"@ + c.crc32@),
            items@.map_values(|x: Vec<char>| x@) == all.subrange(0, k as int),
        decreases sorted.len() - k,
    {
        let mut item: Vec<char> = crate::numfmt::dec_chars(sorted[k].part_number as u128);
        push_str(&mut item, ":");
        push_str(&mut item, sorted[k].crc32.as_str());
        let ghost before = items@.map_values(|x: Vec<char>| x@);
        let ghost iv = item@;
        items.push(item);
        assert(items@.map_values(|x: Vec<char>| x@) =~= before.push(iv));
        assert(all.subrange(0, k + 1) =~= all.subrange(0, k as int).push(all[k as int]));
        k = k + 1;
    }
    assert(all.subrange(0, sorted.len() as int) == all);
    let comma: Vec<char> = vec![','];
    proof { reveal_strlit(","); }
    assert(comma@ == ","@);
    let j = crate::chars::join_chars(&items, comma.as_slice());
    string_of(j.as_slice())
}

proof fn lemma_chunk_pos(m: Seq<ChunkInfo>, x: u64)
    requires
        numbers_ascending(m),
    ensures
        chunk_pos(m, x) <= m.len(),
        forall|k: int| 0 <= k < chunk_pos(m, x) ==> #[trigger] m[k].part_number <= x,
        forall|k: int| chunk_pos(m, x) <= k < m.len() ==> #[trigger] m[k].part_number > x,
    decreases m.len(),
{
    if m.len() > 0 {
        let t = m.subrange(1, m.len() as int);
        lemma_chunk_pos(t, x);
        if m[0].part_number <= x {
            assert forall|k: int| 0 <= k < chunk_pos(m, x) implies #[trigger] m[k].part_number <= x by {
                if k > 0 { assert(m[k] == t[k - 1]); }
            }
            assert forall|k: int| chunk_pos(m, x) <= k < m.len() implies #[trigger] m[k].part_number > x by {
                assert(m[k] == t[k - 1]);
            }
        } else {
            assert forall|k: int| chunk_pos(m, x) <= k < m.len() implies #[trigger] m[k].part_number > x by {
                assert(m[0].part_number <= m[k].part_number);
            }
        }
    }
}

/// The chunks of the finish text are in ascending order of their numbers,
/// and they are exactly the chunks that were sent, each as often as it was
/// sent.
pub proof fn law_chunks_by_number(s: Seq<ChunkInfo>)
    ensures
        numbers_ascending(chunks_by_number(s)),
        chunks_by_number(s).to_multiset() == s.to_multiset(),
    decreases s.len(),
{
    broadcast use vstd::seq_lib::to_multiset_insert, vstd::seq_lib::to_multiset_build;
    if s.len() == 0 {
        assert(chunks_by_number(s) =~= s);
    } else {
        let m = chunks_by_number(s.drop_last());
        law_chunks_by_number(s.drop_last());
        let x = s.last();
        let p = chunk_pos(m, x.part_number);
        lemma_chunk_pos(m, x.part_number);
        let r = m.insert(p as int, x);
        assert forall|i: int, j: int| 0 <= i < j < r.len() implies r[i].part_number <= r[j].part_number by {
            if j < p {
            } else if j == p {
                assert(r[i] == m[i]);
            } else if i < p {
                assert(r[j] == m[j - 1]);
            } else if i == p {
                assert(r[j] == m[j - 1]);
            } else {
                assert(r[i] == m[i - 1]);
                assert(r[j] == m[j - 1]);
            }
        }
        assert(s.drop_last().push(x) =~= s);
    }
}

// ---------------------------------------------------------------------------
// The upload's decisions
// ---------------------------------------------------------------------------

/// How often a transfer is tried.
pub const UPLOAD_ATTEMPTS: u32 = 3;

/// How a file of `file_size` bytes is uploaded: `true` for one whole-file
/// transfer (up to one chunk's size), `false` for chunks; an empty file is
/// refused.
pub fn upload_mode(file_size: u64) -> (r: Result<bool, PlatformError>)
    ensures
        file_size == 0 ==> (r matches Err(PlatformError::InvalidInput(m)) && m@ == "视频文件为空"@),
        file_size > 0 ==> r == Ok::<bool, PlatformError>(file_size <= VIDEO_MAX_SIZE),
{
    if file_size == 0 {
        return Err(PlatformError::InvalidInput(String::from_str("视频文件为空")));
    }
    Ok(file_size <= VIDEO_MAX_SIZE)
}

/// Whether a transfer that failed on try `attempt` (from 0) is tried again.
pub fn retry_after_failure(attempt: u32) -> (r: bool)
    ensures
        r == (attempt + 1 < UPLOAD_ATTEMPTS),
{
    attempt < UPLOAD_ATTEMPTS - 1
}

/// With the chunk count of a file, every chunk is a whole chunk, each one
/// ends inside the file where the next begins, and what follows the last
/// chunk, which is not sent, is shorter than a chunk.
pub proof fn law_chunk_plan(file_size: nat, index: nat)
    requires
        index < file_size / (VIDEO_MAX_SIZE as nat),
    ensures
        chunk_size(file_size, file_size / (VIDEO_MAX_SIZE as nat), index) == VIDEO_MAX_SIZE,
        index * VIDEO_MAX_SIZE + chunk_size(file_size, file_size / (VIDEO_MAX_SIZE as nat), index)
            == (index + 1) * VIDEO_MAX_SIZE,
        (index + 1) * VIDEO_MAX_SIZE <= file_size,
        file_size - (file_size / (VIDEO_MAX_SIZE as nat)) * VIDEO_MAX_SIZE < VIDEO_MAX_SIZE,
{
    let m = VIDEO_MAX_SIZE as int;
    let q = file_size as int / m;
    vstd::arithmetic::div_mod::lemma_fundamental_div_mod(file_size as int, m);
    assert((index + 1) * m <= q * m) by (nonlinear_arith)
        requires index + 1 <= q, m > 0;
    assert(m * q == q * m) by (nonlinear_arith);
    assert(index * m + m == (index + 1) * m) by (nonlinear_arith);
}

proof fn lemma_vod_credentials_keys(auth: UploadAuth)
    ensures
        keys_distinct(vod_credentials(auth)),
{
    let l = vod_credentials(auth);
    reveal_strlit("ak"); reveal_strlit("sk"); reveal_strlit("st"); reveal_strlit("region"); reveal_strlit("service");
    assert(l[0].0[0] != l[1].0[0]);
    assert(l[0].0[0] != l[2].0[0]);
    assert(l[0].0.len() != l[3].0.len());
    assert(l[0].0.len() != l[4].0.len());
    assert(l[1].0[1] != l[2].0[1]);
    assert(l[1].0.len() != l[3].0.len());
    assert(l[1].0.len() != l[4].0.len());
    assert(l[2].0.len() != l[3].0.len());
    assert(l[2].0.len() != l[4].0.len());
    assert(l[3].0.len() != l[4].0.len());
    assert forall|i: int, j: int| 0 <= i < j < l.len() implies #[trigger] l[i].0 != #[trigger] l[j].0 by {
        if i == 0 && j == 1 {
        } else if i == 0 && j == 2 {
        } else if i == 0 && j == 3 {
        } else if i == 0 && j == 4 {
        } else if i == 1 && j == 2 {
        } else if i == 1 && j == 3 {
        } else if i == 1 && j == 4 {
        } else if i == 2 && j == 3 {
        } else if i == 2 && j == 4 {
        } else if i == 3 && j == 4 {
        }
    }
}

proof fn lemma_apply_headers_list_keys(user_agent: Seq<char>)
    ensures
        keys_distinct(apply_headers_list(user_agent)),
{
    let l = apply_headers_list(user_agent);
    reveal_strlit("User-Agent"); reveal_strlit("Referer"); reveal_strlit("Sec-Gpc");
    assert(l[0].0.len() != l[1].0.len());
    assert(l[0].0.len() != l[2].0.len());
    assert(l[1].0[0] != l[2].0[0]);
    assert forall|i: int, j: int| 0 <= i < j < l.len() implies #[trigger] l[i].0 != #[trigger] l[j].0 by {
        if i == 0 && j == 1 {
        } else if i == 0 && j == 2 {
        } else if i == 1 && j == 2 {
        }
    }
}

proof fn lemma_commit_headers_list_keys(user_agent: Seq<char>)
    ensures
        keys_distinct(commit_headers_list(user_agent)),
{
    let l = commit_headers_list(user_agent);
    reveal_strlit("User-Agent"); reveal_strlit("Referer"); reveal_strlit("Content-Type");
    assert(l[0].0.len() != l[1].0.len());
    assert(l[0].0.len() != l[2].0.len());
    assert(l[1].0.len() != l[2].0.len());
    assert forall|i: int, j: int| 0 <= i < j < l.len() implies #[trigger] l[i].0 != #[trigger] l[j].0 by {
        if i == 0 && j == 1 {
        } else if i == 0 && j == 2 {
        } else if i == 1 && j == 2 {
        }
    }
}

proof fn lemma_little_headers_list_keys(authorization: Seq<char>, length: nat, crc32: Seq<char>,     user_agent: Seq<char>, third_id: Seq<char>)
    ensures
        keys_distinct(little_headers_list(authorization, length, crc32, user_agent, third_id)),
{
    let l = little_headers_list(authorization, length, crc32, user_agent, third_id);
    reveal_strlit("Authorization"); reveal_strlit("Content-Length"); reveal_strlit("Content-CRC32"); reveal_strlit("Referer"); reveal_strlit("User-Agent"); reveal_strlit("X-Logical-Part-Mode"); reveal_strlit("X-Storage-U");
    assert(l[0].0.len() != l[1].0.len());
    assert(l[0].0[0] != l[2].0[0]);
    assert(l[0].0.len() != l[3].0.len());
    assert(l[0].0.len() != l[4].0.len());
    assert(l[0].0.len() != l[5].0.len());
    assert(l[0].0.len() != l[6].0.len());
    assert(l[1].0.len() != l[2].0.len());
    assert(l[1].0.len() != l[3].0.len());
    assert(l[1].0.len() != l[4].0.len());
    assert(l[1].0.len() != l[5].0.len());
    assert(l[1].0.len() != l[6].0.len());
    assert(l[2].0.len() != l[3].0.len());
    assert(l[2].0.len() != l[4].0.len());
    assert(l[2].0.len() != l[5].0.len());
    assert(l[2].0.len() != l[6].0.len());
    assert(l[3].0.len() != l[4].0.len());
    assert(l[3].0.len() != l[5].0.len());
    assert(l[3].0.len() != l[6].0.len());
    assert(l[4].0.len() != l[5].0.len());
    assert(l[4].0.len() != l[6].0.len());
    assert(l[5].0.len() != l[6].0.len());
    assert forall|i: int, j: int| 0 <= i < j < l.len() implies #[trigger] l[i].0 != #[trigger] l[j].0 by {
        if i == 0 && j == 1 {
        } else if i == 0 && j == 2 {
        } else if i == 0 && j == 3 {
        } else if i == 0 && j == 4 {
        } else if i == 0 && j == 5 {
        } else if i == 0 && j == 6 {
        } else if i == 1 && j == 2 {
        } else if i == 1 && j == 3 {
        } else if i == 1 && j == 4 {
        } else if i == 1 && j == 5 {
        } else if i == 1 && j == 6 {
        } else if i == 2 && j == 3 {
        } else if i == 2 && j == 4 {
        } else if i == 2 && j == 5 {
        } else if i == 2 && j == 6 {
        } else if i == 3 && j == 4 {
        } else if i == 3 && j == 5 {
        } else if i == 3 && j == 6 {
        } else if i == 4 && j == 5 {
        } else if i == 4 && j == 6 {
        } else if i == 5 && j == 6 {
        }
    }
}

proof fn lemma_chunk_headers_list_keys(authorization: Seq<char>, length: nat, crc32: Seq<char>,     third_id: Seq<char>, user_agent: Seq<char>)
    ensures
        keys_distinct(chunk_headers_list(authorization, length, crc32, third_id, user_agent)),
{
    let l = chunk_headers_list(authorization, length, crc32, third_id, user_agent);
    reveal_strlit("Authorization"); reveal_strlit("Content-Type"); reveal_strlit("Content-Length"); reveal_strlit("Content-CRC32"); reveal_strlit("X-Storage-U"); reveal_strlit("Referer"); reveal_strlit("User-Agent"); reveal_strlit("X-Logical-Part-Mode"); reveal_strlit("X-Storage-Mode");
    assert(l[0].0.len() != l[1].0.len());
    assert(l[0].0.len() != l[2].0.len());
    assert(l[0].0[0] != l[3].0[0]);
    assert(l[0].0.len() != l[4].0.len());
    assert(l[0].0.len() != l[5].0.len());
    assert(l[0].0.len() != l[6].0.len());
    assert(l[0].0.len() != l[7].0.len());
    assert(l[0].0.len() != l[8].0.len());
    assert(l[1].0.len() != l[2].0.len());
    assert(l[1].0.len() != l[3].0.len());
    assert(l[1].0.len() != l[4].0.len());
    assert(l[1].0.len() != l[5].0.len());
    assert(l[1].0.len() != l[6].0.len());
    assert(l[1].0.len() != l[7].0.len());
    assert(l[1].0.len() != l[8].0.len());
    assert(l[2].0.len() != l[3].0.len());
    assert(l[2].0.len() != l[4].0.len());
    assert(l[2].0.len() != l[5].0.len());
    assert(l[2].0.len() != l[6].0.len());
    assert(l[2].0.len() != l[7].0.len());
    assert(l[2].0[0] != l[8].0[0]);
    assert(l[3].0.len() != l[4].0.len());
    assert(l[3].0.len() != l[5].0.len());
    assert(l[3].0.len() != l[6].0.len());
    assert(l[3].0.len() != l[7].0.len());
    assert(l[3].0.len() != l[8].0.len());
    assert(l[4].0.len() != l[5].0.len());
    assert(l[4].0.len() != l[6].0.len());
    assert(l[4].0.len() != l[7].0.len());
    assert(l[4].0.len() != l[8].0.len());
    assert(l[5].0.len() != l[6].0.len());
    assert(l[5].0.len() != l[7].0.len());
    assert(l[5].0.len() != l[8].0.len());
    assert(l[6].0.len() != l[7].0.len());
    assert(l[6].0.len() != l[8].0.len());
    assert(l[7].0.len() != l[8].0.len());
    assert forall|i: int, j: int| 0 <= i < j < l.len() implies #[trigger] l[i].0 != #[trigger] l[j].0 by {
        if i == 0 && j == 1 {
        } else if i == 0 && j == 2 {
        } else if i == 0 && j == 3 {
        } else if i == 0 && j == 4 {
        } else if i == 0 && j == 5 {
        } else if i == 0 && j == 6 {
        } else if i == 0 && j == 7 {
        } else if i == 0 && j == 8 {
        } else if i == 1 && j == 2 {
        } else if i == 1 && j == 3 {
        } else if i == 1 && j == 4 {
        } else if i == 1 && j == 5 {
        } else if i == 1 && j == 6 {
        } else if i == 1 && j == 7 {
        } else if i == 1 && j == 8 {
        } else if i == 2 && j == 3 {
        } else if i == 2 && j == 4 {
        } else if i == 2 && j == 5 {
        } else if i == 2 && j == 6 {
        } else if i == 2 && j == 7 {
        } else if i == 2 && j == 8 {
        } else if i == 3 && j == 4 {
        } else if i == 3 && j == 5 {
        } else if i == 3 && j == 6 {
        } else if i == 3 && j == 7 {
        } else if i == 3 && j == 8 {
        } else if i == 4 && j == 5 {
        } else if i == 4 && j == 6 {
        } else if i == 4 && j == 7 {
        } else if i == 4 && j == 8 {
        } else if i == 5 && j == 6 {
        } else if i == 5 && j == 7 {
        } else if i == 5 && j == 8 {
        } else if i == 6 && j == 7 {
        } else if i == 6 && j == 8 {
        } else if i == 7 && j == 8 {
        }
    }
}

proof fn lemma_init_headers_list_keys(authorization: Seq<char>, user_agent: Seq<char>, third_id: Seq<char>)
    ensures
        keys_distinct(init_headers_list(authorization, user_agent, third_id)),
{
    let l = init_headers_list(authorization, user_agent, third_id);
    reveal_strlit("Authorization"); reveal_strlit("Referer"); reveal_strlit("Sec-Gpc"); reveal_strlit("User-Agent"); reveal_strlit("X-Logical-Part-Mode"); reveal_strlit("X-Storage-Mode"); reveal_strlit("X-Storage-U");
    assert(l[0].0.len() != l[1].0.len());
    assert(l[0].0.len() != l[2].0.len());
    assert(l[0].0.len() != l[3].0.len());
    assert(l[0].0.len() != l[4].0.len());
    assert(l[0].0.len() != l[5].0.len());
    assert(l[0].0.len() != l[6].0.len());
    assert(l[1].0[0] != l[2].0[0]);
    assert(l[1].0.len() != l[3].0.len());
    assert(l[1].0.len() != l[4].0.len());
    assert(l[1].0.len() != l[5].0.len());
    assert(l[1].0.len() != l[6].0.len());
    assert(l[2].0.len() != l[3].0.len());
    assert(l[2].0.len() != l[4].0.len());
    assert(l[2].0.len() != l[5].0.len());
    assert(l[2].0.len() != l[6].0.len());
    assert(l[3].0.len() != l[4].0.len());
    assert(l[3].0.len() != l[5].0.len());
    assert(l[3].0.len() != l[6].0.len());
    assert(l[4].0.len() != l[5].0.len());
    assert(l[4].0.len() != l[6].0.len());
    assert(l[5].0.len() != l[6].0.len());
    assert forall|i: int, j: int| 0 <= i < j < l.len() implies #[trigger] l[i].0 != #[trigger] l[j].0 by {
        if i == 0 && j == 1 {
        } else if i == 0 && j == 2 {
        } else if i == 0 && j == 3 {
        } else if i == 0 && j == 4 {
        } else if i == 0 && j == 5 {
        } else if i == 0 && j == 6 {
        } else if i == 1 && j == 2 {
        } else if i == 1 && j == 3 {
        } else if i == 1 && j == 4 {
        } else if i == 1 && j == 5 {
        } else if i == 1 && j == 6 {
        } else if i == 2 && j == 3 {
        } else if i == 2 && j == 4 {
        } else if i == 2 && j == 5 {
        } else if i == 2 && j == 6 {
        } else if i == 3 && j == 4 {
        } else if i == 3 && j == 5 {
        } else if i == 3 && j == 6 {
        } else if i == 4 && j == 5 {
        } else if i == 4 && j == 6 {
        } else if i == 5 && j == 6 {
        }
    }
}

proof fn lemma_finish_headers_list_keys(authorization: Seq<char>, user_agent: Seq<char>)
    ensures
        keys_distinct(finish_headers_list(authorization, user_agent)),
{
    let l = finish_headers_list(authorization, user_agent);
    reveal_strlit("Authorization"); reveal_strlit("Content-Type"); reveal_strlit("Referer"); reveal_strlit("User-Agent"); reveal_strlit("X-Logical-Part-Mode"); reveal_strlit("X-Storage-Mode");
    assert(l[0].0.len() != l[1].0.len());
    assert(l[0].0.len() != l[2].0.len());
    assert(l[0].0.len() != l[3].0.len());
    assert(l[0].0.len() != l[4].0.len());
    assert(l[0].0.len() != l[5].0.len());
    assert(l[1].0.len() != l[2].0.len());
    assert(l[1].0.len() != l[3].0.len());
    assert(l[1].0.len() != l[4].0.len());
    assert(l[1].0.len() != l[5].0.len());
    assert(l[2].0.len() != l[3].0.len());
    assert(l[2].0.len() != l[4].0.len());
    assert(l[2].0.len() != l[5].0.len());
    assert(l[3].0.len() != l[4].0.len());
    assert(l[3].0.len() != l[5].0.len());
    assert(l[4].0.len() != l[5].0.len());
    assert forall|i: int, j: int| 0 <= i < j < l.len() implies #[trigger] l[i].0 != #[trigger] l[j].0 by {
        if i == 0 && j == 1 {
        } else if i == 0 && j == 2 {
        } else if i == 0 && j == 3 {
        } else if i == 0 && j == 4 {
        } else if i == 0 && j == 5 {
        } else if i == 1 && j == 2 {
        } else if i == 1 && j == 3 {
        } else if i == 1 && j == 4 {
        } else if i == 1 && j == 5 {
        } else if i == 2 && j == 3 {
        } else if i == 2 && j == 4 {
        } else if i == 2 && j == 5 {
        } else if i == 3 && j == 4 {
        } else if i == 3 && j == 5 {
        } else if i == 4 && j == 5 {
        }
    }
}

proof fn lemma_chunk_params_list_keys(part_number: nat, start: nat, upload_id: Seq<char>)
    ensures
        keys_distinct(chunk_params_list(part_number, start, upload_id)),
{
    let l = chunk_params_list(part_number, start, upload_id);
    reveal_strlit("phase"); reveal_strlit("part_number"); reveal_strlit("part_offset"); reveal_strlit("uploadid");
    assert(l[0].0.len() != l[1].0.len());
    assert(l[0].0.len() != l[2].0.len());
    assert(l[0].0.len() != l[3].0.len());
    assert(l[1].0[5] != l[2].0[5]);
    assert(l[1].0.len() != l[3].0.len());
    assert(l[2].0.len() != l[3].0.len());
    assert forall|i: int, j: int| 0 <= i < j < l.len() implies #[trigger] l[i].0 != #[trigger] l[j].0 by {
        if i == 0 && j == 1 {
        } else if i == 0 && j == 2 {
        } else if i == 0 && j == 3 {
        } else if i == 1 && j == 2 {
        } else if i == 1 && j == 3 {
        } else if i == 2 && j == 3 {
        }
    }
}

proof fn lemma_init_params_list_keys()
    ensures
        keys_distinct(init_params_list()),
{
    let l = init_params_list();
    reveal_strlit("uploadmode"); reveal_strlit("phase");
    assert(l[0].0.len() != l[1].0.len());
    assert forall|i: int, j: int| 0 <= i < j < l.len() implies #[trigger] l[i].0 != #[trigger] l[j].0 by {
        if i == 0 && j == 1 {
        }
    }
}

proof fn lemma_finish_params_list_keys(upload_id: Seq<char>)
    ensures
        keys_distinct(finish_params_list(upload_id)),
{
    let l = finish_params_list(upload_id);
    reveal_strlit("uploadmode"); reveal_strlit("phase"); reveal_strlit("uploadid");
    assert(l[0].0.len() != l[1].0.len());
    assert(l[0].0.len() != l[2].0.len());
    assert(l[1].0.len() != l[2].0.len());
    assert forall|i: int, j: int| 0 <= i < j < l.len() implies #[trigger] l[i].0 != #[trigger] l[j].0 by {
        if i == 0 && j == 1 {
        } else if i == 0 && j == 2 {
        } else if i == 1 && j == 2 {
        }
    }
}

} // verus!
