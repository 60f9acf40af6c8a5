//! The answers of the Douyin creator API as typed values: upload
//! credentials, hashtag suggestions, the security ticket and the result of
//! a publication, each read from the API's JSON answer with the API's error
//! conventions.

use vstd::prelude::*;
use crate::chars::{chars_of, string_of, has_prefix, trim_suffix_char_all, trim_suffix_char_all_exec};
use crate::json::{JsonValue, JsonTree, parse_json, spec_parse_json, trees, lemma_trees_index};
use crate::model::PlatformError;

verus! {

/// Where the security ticket service is.
pub struct BdTicketConfig {
    pub api_url: String,
}

impl Default for BdTicketConfig {
    fn default() -> (r: Self)
        ensures
            r.api_url@ == "https://sssj-acibpxtpbg.cn-beijing.fcapp.run/douyin/bd-ticket-guard-client-data"@,
    {
        BdTicketConfig {
            api_url: String::from_str("https://sssj-acibpxtpbg.cn-beijing.fcapp.run/douyin/bd-ticket-guard-client-data"),
        }
    }
}

/// Temporary upload credentials.
pub struct UploadAuth {
    pub access_key_id: String,
    pub secret_access_key: String,
    pub session_token: String,
}

/// The upload options answer.
pub struct UploadOptions {
    pub auth: UploadAuth,
}

/// A hashtag suggestion.
pub struct Challenge {
    pub hashtag_name: String,
    pub hashtag_id: String,
}

/// The security ticket.
pub struct HeaderTicket {
    pub bd_ticket_guard_client_data: String,
    pub web_sign_type: String,
}

/// The publication answer.
pub struct PublishResponse {
    pub item_id: String,
    pub status_code: i64,
}

/// The text of the string member `key`, or `default`.
pub open spec fn str_or(t: JsonTree, key: Seq<char>, default: Seq<char>) -> Seq<char> {
    match t.get_str(key) {
        Some(s) => s,
        None => default,
    }
}

/// Whether the answer's `status_code` is the integer 0.
pub open spec fn status_ok(t: JsonTree) -> bool {
    t.get_i64("status_code"@) == Some(0i64)
}

fn get_or(v: &JsonValue, key: &str, default: &str) -> (r: String)
    ensures
        r@ == str_or(v@, key@, default@),
{
    match v.get_str(key) {
        Some(s) => s,
        None => String::from_str(default),
    }
}

fn is_status_ok(v: &JsonValue) -> (r: bool)
    ensures
        r == status_ok(v@),
{
    match v.get_i64("status_code") {
        Some(c) => c == 0,
        None => false,
    }
}

/// What the upload options answer gives: with a status other than 0 an
/// invalid credentials error with the status message; else the credentials
/// in the JSON text `auth` (`{}` when missing), an invalid credentials error
/// with the JSON error when that text is not JSON.
pub open spec fn upload_options_ok(data: JsonTree, r: Result<UploadOptions, PlatformError>) -> bool {
    if !status_ok(data) {
        r matches Err(PlatformError::InvalidCredentials(m)) && m@ == str_or(data, "status_msg"@, "获取上传选项失败"@)
    } else {
        match spec_parse_json(str_or(data, "auth"@, "{}"@)) {
            Ok(a) => r matches Ok(o) && o.auth.access_key_id@ == a.str_or_empty("AccessKeyID"@)
                && o.auth.secret_access_key@ == a.str_or_empty("SecretAccessKey"@)
                && o.auth.session_token@ == a.str_or_empty("SessionToken"@),
            Err(e) => r matches Err(PlatformError::InvalidCredentials(m)) && m@ == e,
        }
    }
}

/// Reads the upload options answer.
pub fn parse_upload_options(data: &JsonValue) -> (r: Result<UploadOptions, PlatformError>)
    ensures
        upload_options_ok(data@, r),
{
    if !is_status_ok(data) {
        return Err(PlatformError::InvalidCredentials(get_or(data, "status_msg", "获取上传选项失败")));
    }
    let auth_text = get_or(data, "auth", "{}");
    match parse_json(auth_text.as_str()) {
        Ok(a) => Ok(UploadOptions {
            auth: UploadAuth {
                access_key_id: a.str_or_empty("AccessKeyID"),
                secret_access_key: a.str_or_empty("SecretAccessKey"),
                session_token: a.str_or_empty("SessionToken"),
            },
        }),
        Err(e) => Err(PlatformError::InvalidCredentials(e)),
    }
}

/// The suggestion an element gives: its `keyword` and `cid` (empty when
/// missing).
pub open spec fn challenge_of(t: JsonTree, c: Challenge) -> bool {
    c.hashtag_name@ == t.str_or_empty("keyword"@) && c.hashtag_id@ == t.str_or_empty("cid"@)
}

/// The suggestions of a `sug_list` array, element by element.
pub open spec fn challenges_of(a: Seq<JsonTree>, r: Seq<Challenge>) -> bool {
    &&& r.len() == a.len()
    &&& forall|i: int| 0 <= i < a.len() ==> challenge_of(a[i], #[trigger] r[i])
}

/// Reads the hashtag suggestions answer: with a status other than 0 a
/// publication error with the status message; else the suggestions (none
/// when `sug_list` is missing or not an array).
pub fn parse_challenges(data: &JsonValue) -> (r: Result<Vec<Challenge>, PlatformError>)
    ensures
        !status_ok(data@) ==> (r matches Err(PlatformError::PublicationFailed(m))
            && m@ == str_or(data@, "status_msg"@, "搜索话题失败"@)),
        status_ok(data@) ==> (r matches Ok(cs) && challenges_of(match data@.get("sug_list"@) {
            Some(JsonTree::Array(a)) => a,
            _ => Seq::empty(),
        }, cs@)),
{
    if !is_status_ok(data) {
        return Err(PlatformError::PublicationFailed(get_or(data, "status_msg", "搜索话题失败")));
    }
    let mut out: Vec<Challenge> = Vec::new();
    match data.get("sug_list") {
        Some(JsonValue::Array(a)) => {
            proof { lemma_trees_index(a@); }
            let mut i: usize = 0;
            while i < a.len()
                invariant
                    i <= a.len(),
                    trees(a@).len() == a@.len(),
                    forall|j: int| 0 <= j < a@.len() ==> #[trigger] trees(a@)[j] == a@[j]@,
                    out@.len() == i,
                    forall|j: int| 0 <= j < i ==> challenge_of(trees(a@)[j], #[trigger] out@[j]),
                decreases a.len() - i,
            {
                let c = Challenge {
                    hashtag_name: a[i].str_or_empty("keyword"),
                    hashtag_id: a[i].str_or_empty("cid"),
                };
                assert(trees(a@)[i as int] == a@[i as int]@);
                let ghost before = out@;
                out.push(c);
                assert(challenge_of(trees(a@)[i as int], out@[i as int]));
                assert forall|j: int| 0 <= j < i implies challenge_of(trees(a@)[j], #[trigger] out@[j]) by {
                    assert(out@[j] == before[j]);
                }
                i = i + 1;
            }
            Ok(out)
        },
        _ => Ok(out),
    }
}

/// The code of the ticket answer (1 when missing or not an integer).
pub open spec fn ticket_code(t: JsonTree) -> int {
    match t.get_i64("code"@) {
        Some(c) => c as int,
        None => 1,
    }
}

/// The `bd-ticket-guard-client-data` string of the answer's `data`.
pub open spec fn ticket_data(t: JsonTree) -> Seq<char> {
    match t.get("data"@) {
        Some(d) => d.str_or_empty("bd-ticket-guard-client-data"@),
        None => Seq::empty(),
    }
}

/// Reads the security ticket answer: codes other than 0, 200 and 1000 give
/// an authentication error with the answer's message; otherwise the ticket
/// data, with web sign type `1`.
pub fn parse_header_ticket(data: &JsonValue) -> (r: Result<HeaderTicket, PlatformError>)
    ensures
        ({
            let c = ticket_code(data@);
            if c != 0 && c != 200 && c != 1000 {
                r matches Err(PlatformError::AuthenticationFailed(m)) && m@ == str_or(data@, "msg"@, "获取安全票据失败"@)
            } else {
                r matches Ok(t) && t.bd_ticket_guard_client_data@ == ticket_data(data@) && t.web_sign_type@ == "1"@
            }
        }),
{
    let code: i64 = match data.get_i64("code") { Some(c) => c, None => 1 };
    if code != 0 && code != 200 && code != 1000 {
        return Err(PlatformError::AuthenticationFailed(get_or(data, "msg", "获取安全票据失败")));
    }
    let bd = match data.get("data") {
        Some(d) => d.str_or_empty("bd-ticket-guard-client-data"),
        None => String::new(),
    };
    Ok(HeaderTicket { bd_ticket_guard_client_data: bd, web_sign_type: String::from_str("1") })
}

/// The CSRF token of an `x-ware-csrf-token` header: an empty header is an
/// authentication error; else the text after the first comma up to the
/// next, or the whole header when it has no comma.
pub fn csrf_token_of_header(token_header: &str) -> (r: Result<String, PlatformError>)
    ensures
        token_header@.len() == 0 ==> (r matches Err(PlatformError::AuthenticationFailed(m)) && m@ == "获取CSRF令牌失败"@),
        token_header@.len() > 0 ==> (r matches Ok(t) && t@ == crate::douyin_client::csrf_token_text(token_header@)),
{
    if token_header.is_empty() {
        return Err(PlatformError::AuthenticationFailed(String::from_str("获取CSRF令牌失败")));
    }
    Ok(crate::douyin_client::csrf_token_from_header(token_header))
}

/// The ticket header value: the ticket data after a leading `result":"`,
/// without trailing quotes; none when the data does not begin so.
pub open spec fn ticket_header_value(data: Seq<char>) -> Option<Seq<char>> {
    let p = "result\":\""@;
    if has_prefix(data, p) {
        Some(trim_suffix_char_all(data.subrange(p.len() as int, data.len() as int), '"'))
    } else {
        None
    }
}

/// The ticket header value of the ticket data.
pub fn bd_ticket_header_value(data: &str) -> (r: Option<String>)
    ensures
        crate::model::opt_str(r) == ticket_header_value(data@),
{
    let v = chars_of(data);
    let p = chars_of("result\":\"");
    if crate::chars::matches_at(v.as_slice(), p.as_slice(), 0) {
        let mut rest: Vec<char> = Vec::new();
        let mut i: usize = p.len();
        while i < v.len()
            invariant
                p.len() <= i <= v.len(),
                rest@ == v@.subrange(p.len() as int, i as int),
            decreases v.len() - i,
        {
            rest.push(v[i]);
            i = i + 1;
            assert(rest@ == v@.subrange(p.len() as int, i as int));
        }
        let t = trim_suffix_char_all_exec(rest.as_slice(), '"');
        Some(string_of(t.as_slice()))
    } else {
        None
    }
}

/// Reads the publication answer: with a status other than 0 a publication
/// error with the status message; else the item id (empty when missing)
/// and the status.
pub fn parse_publish_response(data: &JsonValue) -> (r: Result<PublishResponse, PlatformError>)
    ensures
        !status_ok(data@) ==> (r matches Err(PlatformError::PublicationFailed(m))
            && m@ == str_or(data@, "status_msg"@, "发布视频失败"@)),
        status_ok(data@) ==> (r matches Ok(p) && p.item_id@ == data@.str_or_empty("item_id"@) && p.status_code == 0),
{
    if !is_status_ok(data) {
        return Err(PlatformError::PublicationFailed(get_or(data, "status_msg", "发布视频失败")));
    }
    Ok(PublishResponse { item_id: data.str_or_empty("item_id"), status_code: 0 })
}

/// The default user agent.
pub fn default_user_agent() -> (r: String)
    ensures
        r@ == crate::douyin_client::default_user_agent(),
{
    String::from_str("Mozilla/5.0 (Windows NT 10.0; Win64; x64) AppleWebKit/537.36 (KHTML, like Gecko) Chrome/120.0.0.0 Safari/537.36")
}

/// The user agent to send: the account's, or the default when it has none.
pub fn user_agent_or_default(user_agent: &str) -> (r: String)
    ensures
        r@ == if user_agent@.len() == 0 { crate::douyin_client::default_user_agent() } else { user_agent@ },
{
    if user_agent.is_empty() { default_user_agent() } else { String::from_str(user_agent) }
}

} // verus!
