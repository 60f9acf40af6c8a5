//! The Douyin creator API client: request URLs and headers, the CSRF token
//! cache, the security ticket request and its retries, and the checks of
//! the API's answers. The HTTP exchanges themselves are made by the caller.

use vstd::prelude::*;
use crate::chars::{chars_of, string_of, push_str, push_chars, has_prefix, contains_seq, split_char,
    split_char_exec, join_with};
use crate::json::{JsonValue, JsonTree, NumTree, json_text, num_text, to_json_string, parse_json,
    spec_parse_json, member_trees, lemma_member_trees_index, trees, empty_object, obj_set, jstr,
    members_insert, members_insert_all, object_of};
use crate::model::{LocalDataItem, local_view, strs};
use crate::signature_v4::{pairs_view, pairs_lookup, pairs_set, get_pair, set_pair, copy_pairs, keys_distinct,
    lemma_push_fresh_key};
use crate::crypto::{to_lowercase, spec_to_lowercase};

verus! {

/// The creator platform.
pub open spec fn base_url() -> Seq<char> {
    "https://creator.douyin.com"@
}

/// The client of one account.
pub struct DouyinClient {
    pub cookie: String,
    pub user_agent: String,
    pub third_id: String,
    pub local_data: Vec<LocalDataItem>,
    /// CSRF tokens already obtained, by URL path.
    pub csrf_token_map: Vec<(String, String)>,
}

/// `key=value` pairs joined by `&`.
pub open spec fn query_text(params: Seq<(Seq<char>, Seq<char>)>) -> Seq<char> {
    join_with(params.map_values(|p: (Seq<char>, Seq<char>)| p.0 + "="@ + p.1), "&"@)
}

/// A URL: the base, the endpoint, and the query when there are parameters.
pub open spec fn url_text(base: Seq<char>, endpoint: Seq<char>, params: Option<Seq<(Seq<char>, Seq<char>)>>) -> Seq<char> {
    match params {
        Some(p) => if p.len() > 0 { base + endpoint + "?"@ + query_text(p) } else { base + endpoint },
        None => base + endpoint,
    }
}

/// `params` as `key=value` texts.
fn query_items(params: &Vec<(String, String)>) -> (r: Vec<Vec<char>>)
    ensures
        r@.map_values(|x: Vec<char>| x@) == pairs_view(params@).map_values(|p: (Seq<char>, Seq<char>)| p.0 + "="@ + p.1),
{
    let ghost all = pairs_view(params@).map_values(|p: (Seq<char>, Seq<char>)| p.0 + "="@ + p.1);
    let mut out: Vec<Vec<char>> = Vec::new();
    let mut i: usize = 0;
    while i < params.len()
        invariant
            i <= params.len(),
            all == pairs_view(params@).map_values(|p: (Seq<char>, Seq<char>)| p.0 + "="@ + p.1),
            out@.map_values(|x: Vec<char>| x@) == all.subrange(0, i as int),
        decreases params.len() - i,
    {
        let mut item: Vec<char> = Vec::new();
        push_str(&mut item, params[i].0.as_str());
        push_str(&mut item, "=");
        push_str(&mut item, params[i].1.as_str());
        let ghost before = out@.map_values(|x: Vec<char>| x@);
        out.push(item);
        assert(out@.map_values(|x: Vec<char>| x@) == before.push(all[i as int]));
        assert(all.subrange(0, i + 1) == all.subrange(0, i as int).push(all[i as int]));
        i = i + 1;
    }
    assert(all.subrange(0, params.len() as int) == all);
    out
}

/// The CSRF token in an `x-ware-csrf-token` header (`version,token`): the
/// text after the first comma up to the next, or the whole header when it
/// has no comma.
pub open spec fn csrf_token_text(header: Seq<char>) -> Seq<char> {
    if contains_seq(header, ","@) { split_char(header, ',')[1] } else { header }
}

/// The BD ticket fields read from the ticket service's `data` object:
/// members whose name begins with `bd-ticket-guard-`, strings as they are,
/// numbers and booleans rendered; other members skipped.
pub open spec fn ticket_fields(m: Seq<(Seq<char>, JsonTree)>) -> Seq<(Seq<char>, Seq<char>)>
    decreases m.len(),
{
    if m.len() == 0 {
        Seq::empty()
    } else {
        let prev = ticket_fields(m.drop_last());
        let (k, v) = m.last();
        if has_prefix(k, "bd-ticket-guard-"@) {
            match v {
                JsonTree::Str(s) => pairs_set(prev, k, s),
                JsonTree::Number(n) => pairs_set(prev, k, num_text(n)),
                JsonTree::Bool(b) => pairs_set(prev, k, if b { "true"@ } else { "false"@ }),
                _ => prev,
            }
        } else {
            prev
        }
    }
}

/// What one attempt at the ticket service leads to.
pub enum TicketStep {
    /// Try again (after a pause).
    Retry,
    /// The outcome: the ticket fields, or the error.
    Done(Result<Vec<(String, String)>, String>),
}

/// The model of what a ticket attempt leads to: `None` to retry, else the
/// outcome.
pub open spec fn ticket_step_model(s: TicketStep) -> Option<Result<Seq<(Seq<char>, Seq<char>)>, Seq<char>>> {
    match s {
        TicketStep::Retry => None,
        TicketStep::Done(Ok(f)) => Some(Ok(pairs_view(f@))),
        TicketStep::Done(Err(e)) => Some(Err(e@)),
    }
}

/// What the ticket service's answer `text` (or the failure to reach it,
/// `Err`) leads to on attempt `attempt` of `max_retries`: an unreadable
/// answer fails at once; code 3602 means the login went offline; another
/// code than 0, 200 and 1000 (or none) is retried while attempts remain,
/// then fails with the service's message; a good answer gives its ticket
/// fields, and fails when it has none; an unreachable service is retried
/// while attempts remain.
pub open spec fn spec_ticket_step(outcome: Result<Seq<char>, Seq<char>>, attempt: int, max_retries: int)
    -> Option<Result<Seq<(Seq<char>, Seq<char>)>, Seq<char>>> {
    match outcome {
        Ok(text) => match spec_parse_json(text) {
            Err(e) => Some(Err("解析BD凭证响应失败: "@ + e)),
            Ok(t) => {
                let code: int = match t.get_i64("code"@) { Some(c) => c as int, None => -1 };
                if code == 3602 {
                    Some(Err("登录离线[获取抖音发布服务BD(3602)]"@))
                } else if code != 0 && code != 200 && code != 1000 {
                    if attempt < max_retries - 1 {
                        None
                    } else {
                        Some(Err(match t.get_str("msg"@) { Some(m) => m, None => "未知错误"@ } + " [获取抖音发布服务BD凭证]"@))
                    }
                } else {
                    let f = match t.get("data"@) {
                        Some(JsonTree::Object(m)) => ticket_fields(m),
                        _ => Seq::empty(),
                    };
                    if f.len() == 0 {
                        Some(Err("获取BD凭证失败：未找到bd-ticket-guard相关字段"@))
                    } else {
                        Some(Ok(f))
                    }
                }
            },
        },
        Err(e) => if attempt < max_retries - 1 {
            None
        } else {
            Some(Err("获取抖音发布服务BD凭证失败: "@ + e))
        },
    }
}

/// The ticket fields of a `data` object.
fn ticket_fields_of(m: &Vec<(String, JsonValue)>) -> (r: Vec<(String, String)>)
    ensures
        pairs_view(r@) == ticket_fields(member_trees(m@)),
{
    let ghost mt = member_trees(m@);
    proof { lemma_member_trees_index(m@); }
    let mut out: Vec<(String, String)> = Vec::new();
    assert(pairs_view(out@) =~= Seq::<(Seq<char>, Seq<char>)>::empty());
    let mut i: usize = 0;
    while i < m.len()
        invariant
            i <= m.len(),
            mt == member_trees(m@),
            mt.len() == m@.len(),
            forall|j: int| 0 <= j < m@.len() ==> #[trigger] mt[j] == (m@[j].0@, m@[j].1@),
            pairs_view(out@) == ticket_fields(mt.subrange(0, i as int)),
        decreases m.len() - i,
    {
        proof {
            let t = mt.subrange(0, i + 1);
            assert(t.drop_last() == mt.subrange(0, i as int));
            assert(t.last() == (m@[i as int].0@, m@[i as int].1@));
        }
        let k = chars_of(m[i].0.as_str());
        if crate::chars::starts_with_lit(k.as_slice(), "bd-ticket-guard-") {
            match &m[i].1 {
                JsonValue::Str(s) => { set_pair(&mut out, m[i].0.clone(), s.clone()); },
                JsonValue::Number(n) => {
                    let t = crate::json::number_text(n);
                    set_pair(&mut out, m[i].0.clone(), t);
                },
                JsonValue::Bool(b) => {
                    let t = if *b { String::from_str("true") } else { String::from_str("false") };
                    set_pair(&mut out, m[i].0.clone(), t);
                },
                _ => {},
            }
        }
        i = i + 1;
    }
    assert(mt.subrange(0, m.len() as int) == mt);
    out
}

/// Decides what one attempt at the ticket service leads to.
pub fn ticket_step(outcome: Result<String, String>, attempt: u32, max_retries: u32) -> (r: TicketStep)
    ensures
        ticket_step_model(r) == spec_ticket_step(match outcome { Ok(t) => Ok(t@), Err(e) => Err(e@) },
            attempt as int, max_retries as int),
{
    let retry_left = (attempt as u64) + 1 < max_retries as u64;
    match outcome {
        Ok(text) => {
            let v = match parse_json(text.as_str()) {
                Ok(v) => v,
                Err(e) => {
                    return TicketStep::Done(Err(String::from_str("解析BD凭证响应失败: ").concat(e.as_str())));
                },
            };
            let code: i64 = match v.get_i64("code") { Some(c) => c, None => -1 };
            if code == 3602 {
                return TicketStep::Done(Err(String::from_str("登录离线[获取抖音发布服务BD(3602)]")));
            }
            if code != 0 && code != 200 && code != 1000 {
                if retry_left {
                    return TicketStep::Retry;
                }
                let msg = match v.get_str("msg") { Some(m) => m, None => String::from_str("未知错误") };
                return TicketStep::Done(Err(msg.concat(" [获取抖音发布服务BD凭证]")));
            }
            let f = match v.get("data") {
                Some(JsonValue::Object(m)) => ticket_fields_of(m),
                _ => {
                    let e: Vec<(String, String)> = Vec::new();
                    assert(pairs_view(e@) =~= Seq::<(Seq<char>, Seq<char>)>::empty());
                    e
                },
            };
            if f.len() == 0 {
                TicketStep::Done(Err(String::from_str("获取BD凭证失败：未找到bd-ticket-guard相关字段")))
            } else {
                TicketStep::Done(Ok(f))
            }
        },
        Err(e) => {
            if retry_left {
                TicketStep::Retry
            } else {
                TicketStep::Done(Err(String::from_str("获取抖音发布服务BD凭证失败: ").concat(e.as_str())))
            }
        },
    }
}

/// The security SDK items as the ticket service reads them.
pub open spec fn local_data_json(items: Seq<LocalDataItem>) -> JsonTree {
    JsonTree::Array(items.map_values(|it: LocalDataItem| object_of(seq![
        ("key"@, JsonTree::Str(it.key@)), ("value"@, JsonTree::Str(it.value@))])))
}

/// The body sent to the ticket service.
pub open spec fn ticket_body_json(cookie: Seq<char>, user_agent: Seq<char>, local_data: Seq<LocalDataItem>,
    third_id: Seq<char>, ticket_type: Seq<char>) -> JsonTree {
    object_of(seq![
        ("cookies"@, JsonTree::Str(cookie)),
        ("user_agent"@, JsonTree::Str(user_agent)),
        ("localdata"@, local_data_json(local_data)),
        ("third_id"@, JsonTree::Str(third_id)),
        ("type"@, JsonTree::Str(ticket_type)),
    ])
}

proof fn lemma_object_of_2(a: (Seq<char>, JsonTree), b: (Seq<char>, JsonTree))
    ensures
        object_of(seq![a, b]) == JsonTree::Object(members_insert(members_insert(Seq::empty(), a.0, a.1), b.0, b.1)),
{
    let s = seq![a, b];
    let e0 = Seq::<(Seq<char>, JsonTree)>::empty();
    assert(s.drop_last() == seq![a]);
    assert(seq![a].drop_last() == e0);
    assert(members_insert_all(e0, e0) == e0);
    assert(members_insert_all(e0, seq![a]) == members_insert(e0, a.0, a.1));
}

fn local_data_value(items: &Vec<LocalDataItem>) -> (r: JsonValue)
    ensures
        r@ == local_data_json(items@),
{
    let ghost all = local_data_json(items@)->Array_0;
    let mut out: Vec<JsonValue> = Vec::new();
    let mut i: usize = 0;
    while i < items.len()
        invariant
            i <= items.len(),
            all == local_data_json(items@)->Array_0,
            trees(out@) == all.subrange(0, i as int),
        decreases items.len() - i,
    {
        let mut o = empty_object();
        obj_set(&mut o, "key", jstr(items[i].key.as_str()));
        obj_set(&mut o, "value", jstr(items[i].value.as_str()));
        proof {
            lemma_object_of_2(("key"@, JsonTree::Str(items@[i as int].key@)), ("value"@, JsonTree::Str(items@[i as int].value@)));
        }
        let ghost before = out@;
        let ghost ov = o@;
        out.push(o);
        proof {
            assert(out@.drop_last() == before);
            assert(trees(out@) == trees(before).push(ov));
            assert(all.subrange(0, i + 1) == all.subrange(0, i as int).push(all[i as int]));
        }
        i = i + 1;
    }
    assert(all.subrange(0, items.len() as int) == all);
    JsonValue::Array(out)
}

/// Whether `s` is the list of request headers and the referer that the
/// extra headers `h` give: a header named `referer` (any case) replaces the
/// default referer (the last such wins), the others are sent as they are.
pub open spec fn post_headers(h: Seq<(Seq<char>, Seq<char>)>) -> (Seq<(Seq<char>, Seq<char>)>, Seq<char>)
    decreases h.len(),
{
    if h.len() == 0 {
        (Seq::empty(), base_url())
    } else {
        let (others, referer) = post_headers(h.drop_last());
        if spec_to_lowercase(h.last().0) == "referer"@ {
            (others, h.last().1)
        } else {
            (others.push(h.last()), referer)
        }
    }
}

/// The query parameters of a video publication.
pub open spec fn publish_v2_params_list() -> Seq<(Seq<char>, Seq<char>)> {
    seq![("read_aid"@, "2906"@), ("cookie_enabled"@, "true"@), ("screen_width"@, "1920"@),
        ("screen_height"@, "1080"@), ("browser_language"@, "zh-CN"@), ("browser_name"@, "Mozilla"@),
        ("browser_online"@, "true"@), ("timezone_name"@, "Asia/Shanghai"@), ("aid"@, "1128"@)]
}

/// The security ticket headers copied from the ticket fields (the web sign
/// type defaults to `1`), then the CSRF token and the referer.
pub open spec fn publish_v2_headers_list(bd: Seq<(Seq<char>, Seq<char>)>, csrf: Seq<char>) -> Seq<(Seq<char>, Seq<char>)> {
    let copy = |h: Seq<(Seq<char>, Seq<char>)>, k: Seq<char>| match pairs_lookup(bd, k) {
        Some(v) => h.push((k, v)),
        None => h,
    };
    let h1 = copy(Seq::empty(), "bd-ticket-guard-client-data"@);
    let h2 = match pairs_lookup(bd, "bd-ticket-guard-web-sign-type"@) {
        Some(v) => h1.push(("bd-ticket-guard-web-sign-type"@, v)),
        None => h1.push(("bd-ticket-guard-web-sign-type"@, "1"@)),
    };
    let h3 = copy(h2, "bd-ticket-guard-version"@);
    let h4 = copy(h3, "bd-ticket-guard-web-version"@);
    let h5 = copy(h4, "bd-ticket-guard-ree-public-key"@);
    let h6 = copy(h5, "bd-ticket-guard-iteration-version"@);
    h6.push(("X-Secsdk-Csrf-Token"@, csrf)).push(("Referer"@, base_url() + "/creator-micro/content/post/video?enter_from=publish_page"@))
}

/// What the publication answer leads to: no answer means the account is
/// held by risk control; a status other than 0 (or none) fails with the
/// status message; an answer without item id fails too; otherwise the
/// answer itself.
pub open spec fn spec_publish_v2_result(response: JsonTree) -> Result<JsonTree, Seq<char>> {
    if response is Null {
        Err("请去账号管理列表中解除风控[抖音]"@)
    } else {
        let status: int = match response.get_i64("status_code"@) { Some(c) => c as int, None => -1 };
        let msg = match response.get_str("status_msg"@) { Some(m) => m, None => "未知错误"@ };
        if status != 0 {
            Err(msg + " [视频发布V2]"@)
        } else if match response.get_str("item_id"@) { Some(i) => i.len() == 0, None => true } {
            Err(msg + " [视频发布V2结果]"@)
        } else {
            Ok(response)
        }
    }
}

/// What the upload options answer leads to: a status other than 0 (or
/// none) fails with the status message; a string `auth` that is JSON is
/// replaced by the parsed value; otherwise the answer as it is.
pub open spec fn spec_upload_options(response: JsonTree) -> Result<JsonTree, Seq<char>> {
    let status: int = match response.get_i64("status_code"@) { Some(c) => c as int, None => -1 };
    if status != 0 {
        Err("获取上传配置失败: "@ + match response.get_str("status_msg"@) { Some(m) => m, None => "获取失败"@ })
    } else {
        match response.get("auth"@) {
            Some(JsonTree::Str(a)) => match spec_parse_json(a) {
                Ok(parsed) => Ok(JsonTree::Object(members_insert(response->Object_0, "auth"@, parsed))),
                Err(_) => Ok(response),
            },
            _ => Ok(response),
        }
    }
}

/// The default user agent.
pub open spec fn default_user_agent() -> Seq<char> {
    "Mozilla/5.0 (Windows NT 10.0; Win64; x64) AppleWebKit/537.36 (KHTML, like Gecko) Chrome/120.0.0.0 Safari/537.36"@
}

impl DouyinClient {
    /// A client for an account, with no CSRF token yet.
    pub fn new(cookie: String, user_agent: String, third_id: String, local_data: Vec<LocalDataItem>) -> (r: Self)
        ensures
            r.cookie == cookie,
            r.user_agent == user_agent,
            r.third_id == third_id,
            r.local_data@ == local_data@,
            r.csrf_token_map@.len() == 0,
    {
        DouyinClient { cookie, user_agent, third_id, local_data, csrf_token_map: Vec::new() }
    }

    /// The URL of `endpoint` under `base_url` with the query parameters.
    pub fn build_url(&self, base_url: &str, endpoint: &str, params: Option<&Vec<(String, String)>>) -> (r: String)
        ensures
            r@ == url_text(base_url@, endpoint@, match params { Some(p) => Some(pairs_view(p@)), None => None }),
    {
        let mut out: Vec<char> = Vec::new();
        push_str(&mut out, base_url);
        push_str(&mut out, endpoint);
        match params {
            Some(p) => {
                if p.len() > 0 {
                    push_str(&mut out, "?");
                    let items = query_items(p);
                    let amp: Vec<char> = vec!['&'];
                    proof { reveal_strlit("&"); }
                    assert(amp@ == "&"@);
                    let q = crate::chars::join_chars(&items, amp.as_slice());
                    push_chars(&mut out, q.as_slice());
                    assert(pairs_view(p@).len() == p@.len());
                }
            },
            None => {},
        }
        string_of(out.as_slice())
    }

    /// The CSRF token already obtained for `url_path`.
    pub fn cached_csrf_token(&self, url_path: &str) -> (r: Option<String>)
        ensures
            crate::model::opt_str(r) == pairs_lookup(pairs_view(self.csrf_token_map@), url_path@),
    {
        match get_pair(&self.csrf_token_map, url_path) {
            Some(t) => Some(t.clone()),
            None => None,
        }
    }

    /// Records the token read from the `x-ware-csrf-token` header for
    /// `url_path` and returns it.
    pub fn store_csrf_token(&mut self, url_path: &str, header: &str) -> (r: String)
        ensures
            r@ == csrf_token_text(header@),
            pairs_view(final(self).csrf_token_map@) == pairs_set(pairs_view(old(self).csrf_token_map@), url_path@, r@),
            final(self).cookie == old(self).cookie,
            final(self).user_agent == old(self).user_agent,
            final(self).third_id == old(self).third_id,
            final(self).local_data == old(self).local_data,
    {
        let t = csrf_token_from_header(header);
        set_pair(&mut self.csrf_token_map, String::from_str(url_path), t.clone());
        t
    }

    /// The body sent to the ticket service, as JSON text.
    pub fn ticket_body(&self, ticket_type: &str) -> (r: String)
        ensures
            r@ == json_text(ticket_body_json(self.cookie@, self.user_agent@, self.local_data@, self.third_id@, ticket_type@)),
    {
        let mut o = empty_object();
        obj_set(&mut o, "cookies", jstr(self.cookie.as_str()));
        obj_set(&mut o, "user_agent", jstr(self.user_agent.as_str()));
        obj_set(&mut o, "localdata", local_data_value(&self.local_data));
        obj_set(&mut o, "third_id", jstr(self.third_id.as_str()));
        obj_set(&mut o, "type", jstr(ticket_type));
        proof {
            let s5 = seq![
                ("cookies"@, JsonTree::Str(self.cookie@)),
                ("user_agent"@, JsonTree::Str(self.user_agent@)),
                ("localdata"@, local_data_json(self.local_data@)),
                ("third_id"@, JsonTree::Str(self.third_id@)),
                ("type"@, JsonTree::Str(ticket_type@)),
            ];
            let e0 = Seq::<(Seq<char>, JsonTree)>::empty();
            let s4 = s5.drop_last();
            let s3 = s4.drop_last();
            let s2 = s3.drop_last();
            let s1 = s2.drop_last();
            assert(s1.drop_last() == e0);
            assert(members_insert_all(e0, s1.drop_last()) == e0);
            assert(members_insert_all(e0, s1) == members_insert(e0, s1.last().0, s1.last().1));
            assert(members_insert_all(e0, s2) == members_insert(members_insert_all(e0, s1), s2.last().0, s2.last().1));
            assert(members_insert_all(e0, s3) == members_insert(members_insert_all(e0, s2), s3.last().0, s3.last().1));
            assert(members_insert_all(e0, s4) == members_insert(members_insert_all(e0, s3), s4.last().0, s4.last().1));
            assert(members_insert_all(e0, s5) == members_insert(members_insert_all(e0, s4), s5.last().0, s5.last().1));
        }
        to_json_string(&o)
    }
}

/// The CSRF token in an `x-ware-csrf-token` header.
pub fn csrf_token_from_header(header: &str) -> (r: String)
    ensures
        r@ == csrf_token_text(header@),
{
    let v = chars_of(header);
    proof { reveal_strlit(","); }
    if crate::chars::contains_chars(v.as_slice(), chars_of(",").as_slice()) {
        let parts = split_char_exec(v.as_slice(), ',');
        proof {
            let k = choose|k: int| crate::chars::occurs_at(v@, ","@, k);
            assert(v@.subrange(k, k + 1) == ","@);
            assert(v@[k] == v@.subrange(k, k + 1)[0]);
            assert(exists|j: int| 0 <= j < v@.len() && v@[j] == ',');
            crate::douyin_auth::lemma_split_from_len(v@, ',', Seq::empty());
            assert(parts@.map_values(|x: Vec<char>| x@).len() == parts@.len());
            assert(parts@.map_values(|x: Vec<char>| x@)[1] == parts@[1]@);
        }
        string_of(parts[1].as_slice())
    } else {
        String::from_str(header)
    }
}

/// The headers and referer of a POST with the extra headers `extra`.
pub fn split_post_headers(extra: &Vec<(String, String)>) -> (r: (Vec<(String, String)>, String))
    ensures
        (pairs_view(r.0@), r.1@) == post_headers(pairs_view(extra@)),
{
    let ghost ev = pairs_view(extra@);
    let mut others: Vec<(String, String)> = Vec::new();
    let mut referer = String::from_str("https://creator.douyin.com");
    let mut i: usize = 0;
    assert(pairs_view(others@) =~= Seq::<(Seq<char>, Seq<char>)>::empty());
    while i < extra.len()
        invariant
            i <= extra.len(),
            ev == pairs_view(extra@),
            (pairs_view(others@), referer@) == post_headers(ev.subrange(0, i as int)),
        decreases extra.len() - i,
    {
        proof {
            let t = ev.subrange(0, i + 1);
            assert(t.drop_last() == ev.subrange(0, i as int));
            assert(t.last() == (extra@[i as int].0@, extra@[i as int].1@));
        }
        let l = to_lowercase(extra[i].0.as_str());
        if crate::chars::str_eq(l.as_str(), "referer") {
            referer = extra[i].1.clone();
        } else {
            let ghost before = pairs_view(others@);
            others.push((extra[i].0.clone(), extra[i].1.clone()));
            assert(pairs_view(others@) == before.push((extra@[i as int].0@, extra@[i as int].1@)));
        }
        i = i + 1;
    }
    assert(ev.subrange(0, extra.len() as int) == ev);
    (others, referer)
}

fn pair(a: &str, b: &str) -> (r: (String, String))
    ensures
        r.0@ == a@,
        r.1@ == b@,
{
    (String::from_str(a), String::from_str(b))
}

/// The query parameters of a video publication.
pub fn publish_v2_params() -> (r: Vec<(String, String)>)
    ensures
        pairs_view(r@) == publish_v2_params_list(),
        keys_distinct(pairs_view(r@)),
{
    let mut v: Vec<(String, String)> = Vec::new();
    v.push(pair("read_aid", "2906"));
    v.push(pair("cookie_enabled", "true"));
    v.push(pair("screen_width", "1920"));
    v.push(pair("screen_height", "1080"));
    v.push(pair("browser_language", "zh-CN"));
    v.push(pair("browser_name", "Mozilla"));
    v.push(pair("browser_online", "true"));
    v.push(pair("timezone_name", "Asia/Shanghai"));
    v.push(pair("aid", "1128"));
    assert(pairs_view(v@) =~= publish_v2_params_list());
    proof { lemma_publish_v2_params_keys(); }
    v
}

fn copy_ticket_field(h: &mut Vec<(String, String)>, bd: &Vec<(String, String)>, k: &str)
    ensures
        pairs_view(final(h)@) == match pairs_lookup(pairs_view(bd@), k@) {
            Some(v) => pairs_view(old(h)@).push((k@, v)),
            None => pairs_view(old(h)@),
        },
{
    match get_pair(bd, k) {
        Some(v) => {
            let ghost before = pairs_view(h@);
            h.push((String::from_str(k), v.clone()));
            assert(pairs_view(h@) == before.push((k@, v@)));
        },
        None => {},
    }
}

/// The headers of a video publication.
pub fn publish_v2_headers(bd_ticket: &Vec<(String, String)>, csrf_token: &str) -> (r: Vec<(String, String)>)
    ensures
        pairs_view(r@) == publish_v2_headers_list(pairs_view(bd_ticket@), csrf_token@),
        keys_distinct(pairs_view(r@)),
{
    let mut h: Vec<(String, String)> = Vec::new();
    assert(pairs_view(h@) =~= Seq::<(Seq<char>, Seq<char>)>::empty());
    copy_ticket_field(&mut h, bd_ticket, "bd-ticket-guard-client-data");
    match get_pair(bd_ticket, "bd-ticket-guard-web-sign-type") {
        Some(v) => {
            let ghost before = pairs_view(h@);
            h.push((String::from_str("bd-ticket-guard-web-sign-type"), v.clone()));
            assert(pairs_view(h@) == before.push(("bd-ticket-guard-web-sign-type"@, v@)));
        },
        None => {
            let ghost before = pairs_view(h@);
            h.push(pair("bd-ticket-guard-web-sign-type", "1"));
            assert(pairs_view(h@) == before.push(("bd-ticket-guard-web-sign-type"@, "1"@)));
        },
    }
    copy_ticket_field(&mut h, bd_ticket, "bd-ticket-guard-version");
    copy_ticket_field(&mut h, bd_ticket, "bd-ticket-guard-web-version");
    copy_ticket_field(&mut h, bd_ticket, "bd-ticket-guard-ree-public-key");
    copy_ticket_field(&mut h, bd_ticket, "bd-ticket-guard-iteration-version");
    let ghost b6 = pairs_view(h@);
    h.push((String::from_str("X-Secsdk-Csrf-Token"), String::from_str(csrf_token)));
    h.push(pair("Referer", "https://creator.douyin.com/creator-micro/content/post/video?enter_from=publish_page"));
    proof {
        reveal_strlit("https://creator.douyin.com");
        reveal_strlit("/creator-micro/content/post/video?enter_from=publish_page");
        reveal_strlit("https://creator.douyin.com/creator-micro/content/post/video?enter_from=publish_page");
        assert(pairs_view(h@) == b6.push(("X-Secsdk-Csrf-Token"@, csrf_token@)).push(("Referer"@,
            "https://creator.douyin.com/creator-micro/content/post/video?enter_from=publish_page"@)));
        assert(base_url() + "/creator-micro/content/post/video?enter_from=publish_page"@
            == "https://creator.douyin.com/creator-micro/content/post/video?enter_from=publish_page"@);
        lemma_publish_v2_headers_keys(pairs_view(bd_ticket@), csrf_token@);
    }
    h
}

/// Checks the publication answer.
pub fn publish_v2_result(response: JsonValue) -> (r: Result<JsonValue, String>)
    ensures
        match r {
            Ok(v) => spec_publish_v2_result(response@) == Ok::<JsonTree, Seq<char>>(v@),
            Err(e) => spec_publish_v2_result(response@) == Err::<JsonTree, Seq<char>>(e@),
        },
{
    if response.is_null() {
        return Err(String::from_str("请去账号管理列表中解除风控[抖音]"));
    }
    let status: i64 = match response.get_i64("status_code") { Some(c) => c, None => -1 };
    let msg = match response.get_str("status_msg") { Some(m) => m, None => String::from_str("未知错误") };
    if status != 0 {
        return Err(msg.concat(" [视频发布V2]"));
    }
    let empty_item = match response.get_str("item_id") {
        Some(i) => i.as_str().is_empty(),
        None => true,
    };
    if empty_item {
        return Err(msg.concat(" [视频发布V2结果]"));
    }
    Ok(response)
}

/// Checks the upload options answer and reads its `auth` text.
pub fn upload_options_result(response: JsonValue) -> (r: Result<JsonValue, String>)
    ensures
        match r {
            Ok(v) => spec_upload_options(response@) == Ok::<JsonTree, Seq<char>>(v@),
            Err(e) => spec_upload_options(response@) == Err::<JsonTree, Seq<char>>(e@),
        },
{
    let status: i64 = match response.get_i64("status_code") { Some(c) => c, None => -1 };
    if status != 0 {
        let msg = match response.get_str("status_msg") { Some(m) => m, None => String::from_str("获取失败") };
        return Err(String::from_str("获取上传配置失败: ").concat(msg.as_str()));
    }
    let parsed = match response.get("auth") {
        Some(JsonValue::Str(a)) => match parse_json(a.as_str()) {
            Ok(p) => Some(p),
            Err(_) => None,
        },
        _ => None,
    };
    match parsed {
        Some(p) => {
            let mut out = response;
            assert(out@ is Object);
            obj_set(&mut out, "auth", p);
            Ok(out)
        },
        None => Ok(response),
    }
}

// ---------------------------------------------------------------------------
// Request headers and parameters
// ---------------------------------------------------------------------------

/// The accepted answer types of the API requests.
pub open spec fn accept_text() -> Seq<char> {
    "application/json, text/plain, */*"@
}

/// The headers of a GET request with the given referer.
pub open spec fn get_headers_list(cookie: Seq<char>, user_agent: Seq<char>, referer: Seq<char>) -> Seq<(Seq<char>, Seq<char>)> {
    seq![("Cookie"@, cookie), ("User-Agent"@, user_agent), ("Referer"@, referer), ("Accept"@, accept_text()),
        ("Accept-Language"@, "zh-CN,zh;q=0.9"@)]
}

/// The headers of a POST request, before its extra headers and referer.
pub open spec fn post_base_headers_list(cookie: Seq<char>, user_agent: Seq<char>) -> Seq<(Seq<char>, Seq<char>)> {
    seq![("Content-Type"@, "application/json; charset=utf-8"@), ("Cookie"@, cookie), ("User-Agent"@, user_agent),
        ("Accept"@, accept_text()), ("Accept-Language"@, "zh-CN,zh;q=0.9"@)]
}

/// The headers of the CSRF token request.
pub open spec fn csrf_headers_list(cookie: Seq<char>, user_agent: Seq<char>) -> Seq<(Seq<char>, Seq<char>)> {
    seq![("x-secsdk-csrf-request"@, "1"@), ("x-secsdk-csrf-version"@, "1.2.7"@), ("Cookie"@, cookie),
        ("User-Agent"@, user_agent)]
}

/// The headers of the msToken exchange.
pub open spec fn ms_token_headers_list(ttw_id: Seq<char>, user_agent: Seq<char>) -> Seq<(Seq<char>, Seq<char>)> {
    seq![("Content-Type"@, "text/plain;charset=UTF-8"@), ("Cookie"@, "ttwid="@ + ttw_id), ("User-Agent"@, user_agent),
        ("referer"@, base_url()), ("sec-fetch-storage-access"@, "active"@)]
}

/// The query parameters of the msToken exchange.
pub open spec fn ms_token_params_list(ms_token: Seq<char>) -> Seq<(Seq<char>, Seq<char>)> {
    seq![("ms_appid"@, "2906"@), ("msToken"@, ms_token)]
}

/// The query parameters of a hashtag suggestion search.
pub open spec fn challenge_sug_params_list(keyword: Seq<char>) -> Seq<(Seq<char>, Seq<char>)> {
    seq![("aid"@, "2906"@), ("source"@, "challenge_create"@), ("keyword"@, keyword)]
}

/// The referer of a hashtag suggestion search.
pub open spec fn challenge_sug_referer() -> Seq<char> {
    "https://creator.douyin.com/creator-micro/content/publish-media/image-text?enter_from=publish_page"@
}

/// The security SDK service of the msToken exchange.
pub fn mssdk_url() -> (r: String)
    ensures
        r@ == "https://mssdk.bytedance.com"@,
{
    String::from_str("https://mssdk.bytedance.com")
}

/// The referer of a hashtag suggestion search.
pub fn challenge_sug_referer_text() -> (r: String)
    ensures
        r@ == challenge_sug_referer(),
{
    String::from_str("https://creator.douyin.com/creator-micro/content/publish-media/image-text?enter_from=publish_page")
}

/// The query parameters of a hashtag suggestion search for `keyword`.
pub fn challenge_sug_params(keyword: &str) -> (r: Vec<(String, String)>)
    ensures
        pairs_view(r@) == challenge_sug_params_list(keyword@),
        keys_distinct(pairs_view(r@)),
{
    let mut v: Vec<(String, String)> = Vec::new();
    v.push(pair("aid", "2906"));
    v.push(pair("source", "challenge_create"));
    v.push(pair("keyword", keyword));
    assert(pairs_view(v@) =~= challenge_sug_params_list(keyword@));
    proof { lemma_challenge_sug_params_keys(keyword@); }
    v
}

/// The query parameters of the msToken exchange.
pub fn ms_token_params(ms_token: &str) -> (r: Vec<(String, String)>)
    ensures
        pairs_view(r@) == ms_token_params_list(ms_token@),
        keys_distinct(pairs_view(r@)),
{
    let mut v: Vec<(String, String)> = Vec::new();
    v.push(pair("ms_appid", "2906"));
    v.push(pair("msToken", ms_token));
    assert(pairs_view(v@) =~= ms_token_params_list(ms_token@));
    proof { lemma_ms_token_params_keys(ms_token@); }
    v
}

/// How the CSRF token request went: it could not be sent (why), it was
/// answered with an unsuccessful status (its text), or it succeeded with or
/// without an `x-ware-csrf-token` header.
pub enum CsrfAnswer {
    Failed(String),
    Status(String),
    Header(Option<String>),
}

impl DouyinClient {
    /// The headers of a GET request with the given referer.
    pub fn get_headers(&self, referer: &str) -> (r: Vec<(String, String)>)
        ensures
            pairs_view(r@) == get_headers_list(self.cookie@, self.user_agent@, referer@),
            keys_distinct(pairs_view(r@)),
    {
        let mut v: Vec<(String, String)> = Vec::new();
        v.push(pair("Cookie", self.cookie.as_str()));
        v.push(pair("User-Agent", self.user_agent.as_str()));
        v.push(pair("Referer", referer));
        v.push(pair("Accept", "application/json, text/plain, */*"));
        v.push(pair("Accept-Language", "zh-CN,zh;q=0.9"));
        assert(pairs_view(v@) =~= get_headers_list(self.cookie@, self.user_agent@, referer@));
        proof { lemma_get_headers_keys(self.cookie@, self.user_agent@, referer@); }
        v
    }

    /// The headers of a POST request, before its extra headers and referer.
    pub fn post_base_headers(&self) -> (r: Vec<(String, String)>)
        ensures
            pairs_view(r@) == post_base_headers_list(self.cookie@, self.user_agent@),
            keys_distinct(pairs_view(r@)),
    {
        let mut v: Vec<(String, String)> = Vec::new();
        v.push(pair("Content-Type", "application/json; charset=utf-8"));
        v.push(pair("Cookie", self.cookie.as_str()));
        v.push(pair("User-Agent", self.user_agent.as_str()));
        v.push(pair("Accept", "application/json, text/plain, */*"));
        v.push(pair("Accept-Language", "zh-CN,zh;q=0.9"));
        assert(pairs_view(v@) =~= post_base_headers_list(self.cookie@, self.user_agent@));
        proof { lemma_post_base_headers_keys(self.cookie@, self.user_agent@); }
        v
    }

    /// The headers of the CSRF token request.
    pub fn csrf_headers(&self) -> (r: Vec<(String, String)>)
        ensures
            pairs_view(r@) == csrf_headers_list(self.cookie@, self.user_agent@),
            keys_distinct(pairs_view(r@)),
    {
        let mut v: Vec<(String, String)> = Vec::new();
        v.push(pair("x-secsdk-csrf-request", "1"));
        v.push(pair("x-secsdk-csrf-version", "1.2.7"));
        v.push(pair("Cookie", self.cookie.as_str()));
        v.push(pair("User-Agent", self.user_agent.as_str()));
        assert(pairs_view(v@) =~= csrf_headers_list(self.cookie@, self.user_agent@));
        proof { lemma_csrf_headers_keys(self.cookie@, self.user_agent@); }
        v
    }

    /// The headers of the msToken exchange.
    pub fn ms_token_headers(&self, ttw_id: &str) -> (r: Vec<(String, String)>)
        ensures
            pairs_view(r@) == ms_token_headers_list(ttw_id@, self.user_agent@),
            keys_distinct(pairs_view(r@)),
    {
        let mut v: Vec<(String, String)> = Vec::new();
        v.push(pair("Content-Type", "text/plain;charset=UTF-8"));
        let cookie = String::from_str("ttwid=").concat(ttw_id);
        v.push(pair("Cookie", cookie.as_str()));
        v.push(pair("User-Agent", self.user_agent.as_str()));
        v.push(pair("referer", "https://creator.douyin.com"));
        v.push(pair("sec-fetch-storage-access", "active"));
        assert(pairs_view(v@) =~= ms_token_headers_list(ttw_id@, self.user_agent@));
        proof { lemma_ms_token_headers_keys(ttw_id@, self.user_agent@); }
        v
    }

    /// The CSRF token from the answer to its request for `url_path`: the
    /// token of the `x-ware-csrf-token` header, recorded for the path; each
    /// failure with its message, the cache unchanged.
    pub fn csrf_token_answer(&mut self, url_path: &str, answer: CsrfAnswer) -> (r: Result<String, String>)
        ensures
            final(self).cookie == old(self).cookie,
            final(self).user_agent == old(self).user_agent,
            final(self).third_id == old(self).third_id,
            final(self).local_data == old(self).local_data,
            match answer {
                CsrfAnswer::Failed(e) => (r matches Err(m) && m@ == "获取CSRF Token失败: "@ + e@)
                    && final(self).csrf_token_map == old(self).csrf_token_map,
                CsrfAnswer::Status(s) => (r matches Err(m) && m@ == "获取CSRF Token失败: HTTP "@ + s@)
                    && final(self).csrf_token_map == old(self).csrf_token_map,
                CsrfAnswer::Header(None) => (r matches Err(m) && m@ == "获取CSRF Token失败：响应头中未找到x-ware-csrf-token"@)
                    && final(self).csrf_token_map == old(self).csrf_token_map,
                CsrfAnswer::Header(Some(h)) => (r matches Ok(t) && t@ == csrf_token_text(h@))
                    && pairs_view(final(self).csrf_token_map@)
                        == pairs_set(pairs_view(old(self).csrf_token_map@), url_path@, csrf_token_text(h@)),
            },
    {
        match answer {
            CsrfAnswer::Failed(e) => Err(String::from_str("获取CSRF Token失败: ").concat(e.as_str())),
            CsrfAnswer::Status(s) => Err(String::from_str("获取CSRF Token失败: HTTP ").concat(s.as_str())),
            CsrfAnswer::Header(None) => Err(String::from_str("获取CSRF Token失败：响应头中未找到x-ware-csrf-token")),
            CsrfAnswer::Header(Some(h)) => Ok(self.store_csrf_token(url_path, h.as_str())),
        }
    }
}

proof fn lemma_publish_v2_params_keys()
    ensures
        keys_distinct(publish_v2_params_list()),
{
    let l = publish_v2_params_list();
    reveal_strlit("read_aid"); reveal_strlit("cookie_enabled"); reveal_strlit("screen_width"); reveal_strlit("screen_height"); reveal_strlit("browser_language"); reveal_strlit("browser_name"); reveal_strlit("browser_online"); reveal_strlit("timezone_name"); reveal_strlit("aid");
    assert(l[0].0.len() != l[1].0.len());
    assert(l[0].0.len() != l[2].0.len());
    assert(l[0].0.len() != l[3].0.len());
    assert(l[0].0.len() != l[4].0.len());
    assert(l[0].0.len() != l[5].0.len());
    assert(l[0].0.len() != l[6].0.len());
    assert(l[0].0.len() != l[7].0.len());
    assert(l[0].0.len() != l[8].0.len());
    assert(l[1].0.len() != l[2].0.len());
    assert(l[1].0.len() != l[3].0.len());
    assert(l[1].0.len() != l[4].0.len());
    assert(l[1].0.len() != l[5].0.len());
    assert(l[1].0[0] != l[6].0[0]);
    assert(l[1].0.len() != l[7].0.len());
    assert(l[1].0.len() != l[8].0.len());
    assert(l[2].0.len() != l[3].0.len());
    assert(l[2].0.len() != l[4].0.len());
    assert(l[2].0[0] != l[5].0[0]);
    assert(l[2].0.len() != l[6].0.len());
    assert(l[2].0.len() != l[7].0.len());
    assert(l[2].0.len() != l[8].0.len());
    assert(l[3].0.len() != l[4].0.len());
    assert(l[3].0.len() != l[5].0.len());
    assert(l[3].0.len() != l[6].0.len());
    assert(l[3].0[0] != l[7].0[0]);
    assert(l[3].0.len() != l[8].0.len());
    assert(l[4].0.len() != l[5].0.len());
    assert(l[4].0.len() != l[6].0.len());
    assert(l[4].0.len() != l[7].0.len());
    assert(l[4].0.len() != l[8].0.len());
    assert(l[5].0.len() != l[6].0.len());
    assert(l[5].0.len() != l[7].0.len());
    assert(l[5].0.len() != l[8].0.len());
    assert(l[6].0.len() != l[7].0.len());
    assert(l[6].0.len() != l[8].0.len());
    assert(l[7].0.len() != l[8].0.len());
    assert forall|i: int, j: int| 0 <= i < j < l.len() implies #[trigger] l[i].0 != #[trigger] l[j].0 by {
        if i == 0 && j == 1 {
        } else if i == 0 && j == 2 {
        } else if i == 0 && j == 3 {
        } else if i == 0 && j == 4 {
        } else if i == 0 && j == 5 {
        } else if i == 0 && j == 6 {
        } else if i == 0 && j == 7 {
        } else if i == 0 && j == 8 {
        } else if i == 1 && j == 2 {
        } else if i == 1 && j == 3 {
        } else if i == 1 && j == 4 {
        } else if i == 1 && j == 5 {
        } else if i == 1 && j == 6 {
        } else if i == 1 && j == 7 {
        } else if i == 1 && j == 8 {
        } else if i == 2 && j == 3 {
        } else if i == 2 && j == 4 {
        } else if i == 2 && j == 5 {
        } else if i == 2 && j == 6 {
        } else if i == 2 && j == 7 {
        } else if i == 2 && j == 8 {
        } else if i == 3 && j == 4 {
        } else if i == 3 && j == 5 {
        } else if i == 3 && j == 6 {
        } else if i == 3 && j == 7 {
        } else if i == 3 && j == 8 {
        } else if i == 4 && j == 5 {
        } else if i == 4 && j == 6 {
        } else if i == 4 && j == 7 {
        } else if i == 4 && j == 8 {
        } else if i == 5 && j == 6 {
        } else if i == 5 && j == 7 {
        } else if i == 5 && j == 8 {
        } else if i == 6 && j == 7 {
        } else if i == 6 && j == 8 {
        } else if i == 7 && j == 8 {
        }
    }
}

proof fn lemma_challenge_sug_params_keys(keyword: Seq<char>)
    ensures
        keys_distinct(challenge_sug_params_list(keyword)),
{
    let l = challenge_sug_params_list(keyword);
    reveal_strlit("aid"); reveal_strlit("source"); reveal_strlit("keyword");
    assert(l[0].0.len() != l[1].0.len());
    assert(l[0].0.len() != l[2].0.len());
    assert(l[1].0.len() != l[2].0.len());
    assert forall|i: int, j: int| 0 <= i < j < l.len() implies #[trigger] l[i].0 != #[trigger] l[j].0 by {
        if i == 0 && j == 1 {
        } else if i == 0 && j == 2 {
        } else if i == 1 && j == 2 {
        }
    }
}

proof fn lemma_ms_token_params_keys(ms_token: Seq<char>)
    ensures
        keys_distinct(ms_token_params_list(ms_token)),
{
    let l = ms_token_params_list(ms_token);
    reveal_strlit("ms_appid"); reveal_strlit("msToken");
    assert(l[0].0.len() != l[1].0.len());
    assert forall|i: int, j: int| 0 <= i < j < l.len() implies #[trigger] l[i].0 != #[trigger] l[j].0 by {
        if i == 0 && j == 1 {
        }
    }
}

proof fn lemma_get_headers_keys(cookie: Seq<char>, user_agent: Seq<char>, referer: Seq<char>)
    ensures
        keys_distinct(get_headers_list(cookie, user_agent, referer)),
{
    let l = get_headers_list(cookie, user_agent, referer);
    reveal_strlit("Cookie"); reveal_strlit("User-Agent"); reveal_strlit("Referer"); reveal_strlit("Accept"); reveal_strlit("Accept-Language");
    assert(l[0].0.len() != l[1].0.len());
    assert(l[0].0.len() != l[2].0.len());
    assert(l[0].0[0] != l[3].0[0]);
    assert(l[0].0.len() != l[4].0.len());
    assert(l[1].0.len() != l[2].0.len());
    assert(l[1].0.len() != l[3].0.len());
    assert(l[1].0.len() != l[4].0.len());
    assert(l[2].0.len() != l[3].0.len());
    assert(l[2].0.len() != l[4].0.len());
    assert(l[3].0.len() != l[4].0.len());
    assert forall|i: int, j: int| 0 <= i < j < l.len() implies #[trigger] l[i].0 != #[trigger] l[j].0 by {
        if i == 0 && j == 1 {
        } else if i == 0 && j == 2 {
        } else if i == 0 && j == 3 {
        } else if i == 0 && j == 4 {
        } else if i == 1 && j == 2 {
        } else if i == 1 && j == 3 {
        } else if i == 1 && j == 4 {
        } else if i == 2 && j == 3 {
        } else if i == 2 && j == 4 {
        } else if i == 3 && j == 4 {
        }
    }
}

proof fn lemma_post_base_headers_keys(cookie: Seq<char>, user_agent: Seq<char>)
    ensures
        keys_distinct(post_base_headers_list(cookie, user_agent)),
{
    let l = post_base_headers_list(cookie, user_agent);
    reveal_strlit("Content-Type"); reveal_strlit("Cookie"); reveal_strlit("User-Agent"); reveal_strlit("Accept"); reveal_strlit("Accept-Language");
    assert(l[0].0.len() != l[1].0.len());
    assert(l[0].0.len() != l[2].0.len());
    assert(l[0].0.len() != l[3].0.len());
    assert(l[0].0.len() != l[4].0.len());
    assert(l[1].0.len() != l[2].0.len());
    assert(l[1].0[0] != l[3].0[0]);
    assert(l[1].0.len() != l[4].0.len());
    assert(l[2].0.len() != l[3].0.len());
    assert(l[2].0.len() != l[4].0.len());
    assert(l[3].0.len() != l[4].0.len());
    assert forall|i: int, j: int| 0 <= i < j < l.len() implies #[trigger] l[i].0 != #[trigger] l[j].0 by {
        if i == 0 && j == 1 {
        } else if i == 0 && j == 2 {
        } else if i == 0 && j == 3 {
        } else if i == 0 && j == 4 {
        } else if i == 1 && j == 2 {
        } else if i == 1 && j == 3 {
        } else if i == 1 && j == 4 {
        } else if i == 2 && j == 3 {
        } else if i == 2 && j == 4 {
        } else if i == 3 && j == 4 {
        }
    }
}

proof fn lemma_csrf_headers_keys(cookie: Seq<char>, user_agent: Seq<char>)
    ensures
        keys_distinct(csrf_headers_list(cookie, user_agent)),
{
    let l = csrf_headers_list(cookie, user_agent);
    reveal_strlit("x-secsdk-csrf-request"); reveal_strlit("x-secsdk-csrf-version"); reveal_strlit("Cookie"); reveal_strlit("User-Agent");
    assert(l[0].0[14] != l[1].0[14]);
    assert(l[0].0.len() != l[2].0.len());
    assert(l[0].0.len() != l[3].0.len());
    assert(l[1].0.len() != l[2].0.len());
    assert(l[1].0.len() != l[3].0.len());
    assert(l[2].0.len() != l[3].0.len());
    assert forall|i: int, j: int| 0 <= i < j < l.len() implies #[trigger] l[i].0 != #[trigger] l[j].0 by {
        if i == 0 && j == 1 {
        } else if i == 0 && j == 2 {
        } else if i == 0 && j == 3 {
        } else if i == 1 && j == 2 {
        } else if i == 1 && j == 3 {
        } else if i == 2 && j == 3 {
        }
    }
}

proof fn lemma_ms_token_headers_keys(ttw_id: Seq<char>, user_agent: Seq<char>)
    ensures
        keys_distinct(ms_token_headers_list(ttw_id, user_agent)),
{
    let l = ms_token_headers_list(ttw_id, user_agent);
    reveal_strlit("Content-Type"); reveal_strlit("Cookie"); reveal_strlit("User-Agent"); reveal_strlit("referer"); reveal_strlit("sec-fetch-storage-access");
    assert(l[0].0.len() != l[1].0.len());
    assert(l[0].0.len() != l[2].0.len());
    assert(l[0].0.len() != l[3].0.len());
    assert(l[0].0.len() != l[4].0.len());
    assert(l[1].0.len() != l[2].0.len());
    assert(l[1].0.len() != l[3].0.len());
    assert(l[1].0.len() != l[4].0.len());
    assert(l[2].0.len() != l[3].0.len());
    assert(l[2].0.len() != l[4].0.len());
    assert(l[3].0.len() != l[4].0.len());
    assert forall|i: int, j: int| 0 <= i < j < l.len() implies #[trigger] l[i].0 != #[trigger] l[j].0 by {
        if i == 0 && j == 1 {
        } else if i == 0 && j == 2 {
        } else if i == 0 && j == 3 {
        } else if i == 0 && j == 4 {
        } else if i == 1 && j == 2 {
        } else if i == 1 && j == 3 {
        } else if i == 1 && j == 4 {
        } else if i == 2 && j == 3 {
        } else if i == 2 && j == 4 {
        } else if i == 3 && j == 4 {
        }
    }
}

proof fn lemma_publish_v2_headers_keys(bd: Seq<(Seq<char>, Seq<char>)>, csrf: Seq<char>)
    ensures
        keys_distinct(publish_v2_headers_list(bd, csrf)),
{
    reveal_strlit("bd-ticket-guard-client-data"); reveal_strlit("bd-ticket-guard-web-sign-type"); reveal_strlit("bd-ticket-guard-version"); reveal_strlit("bd-ticket-guard-web-version"); reveal_strlit("bd-ticket-guard-ree-public-key"); reveal_strlit("bd-ticket-guard-iteration-version"); reveal_strlit("X-Secsdk-Csrf-Token"); reveal_strlit("Referer");
    assert("bd-ticket-guard-client-data"@.len() != "bd-ticket-guard-web-sign-type"@.len());
    assert("bd-ticket-guard-client-data"@.len() != "bd-ticket-guard-version"@.len());
    assert("bd-ticket-guard-client-data"@[16] != "bd-ticket-guard-web-version"@[16]);
    assert("bd-ticket-guard-client-data"@.len() != "bd-ticket-guard-ree-public-key"@.len());
    assert("bd-ticket-guard-client-data"@.len() != "bd-ticket-guard-iteration-version"@.len());
    assert("bd-ticket-guard-client-data"@.len() != "X-Secsdk-Csrf-Token"@.len());
    assert("bd-ticket-guard-client-data"@.len() != "Referer"@.len());
    assert("bd-ticket-guard-web-sign-type"@.len() != "bd-ticket-guard-version"@.len());
    assert("bd-ticket-guard-web-sign-type"@.len() != "bd-ticket-guard-web-version"@.len());
    assert("bd-ticket-guard-web-sign-type"@.len() != "bd-ticket-guard-ree-public-key"@.len());
    assert("bd-ticket-guard-web-sign-type"@.len() != "bd-ticket-guard-iteration-version"@.len());
    assert("bd-ticket-guard-web-sign-type"@.len() != "X-Secsdk-Csrf-Token"@.len());
    assert("bd-ticket-guard-web-sign-type"@.len() != "Referer"@.len());
    assert("bd-ticket-guard-version"@.len() != "bd-ticket-guard-web-version"@.len());
    assert("bd-ticket-guard-version"@.len() != "bd-ticket-guard-ree-public-key"@.len());
    assert("bd-ticket-guard-version"@.len() != "bd-ticket-guard-iteration-version"@.len());
    assert("bd-ticket-guard-version"@.len() != "X-Secsdk-Csrf-Token"@.len());
    assert("bd-ticket-guard-version"@.len() != "Referer"@.len());
    assert("bd-ticket-guard-web-version"@.len() != "bd-ticket-guard-ree-public-key"@.len());
    assert("bd-ticket-guard-web-version"@.len() != "bd-ticket-guard-iteration-version"@.len());
    assert("bd-ticket-guard-web-version"@.len() != "X-Secsdk-Csrf-Token"@.len());
    assert("bd-ticket-guard-web-version"@.len() != "Referer"@.len());
    assert("bd-ticket-guard-ree-public-key"@.len() != "bd-ticket-guard-iteration-version"@.len());
    assert("bd-ticket-guard-ree-public-key"@.len() != "X-Secsdk-Csrf-Token"@.len());
    assert("bd-ticket-guard-ree-public-key"@.len() != "Referer"@.len());
    assert("bd-ticket-guard-iteration-version"@.len() != "X-Secsdk-Csrf-Token"@.len());
    assert("bd-ticket-guard-iteration-version"@.len() != "Referer"@.len());
    assert("X-Secsdk-Csrf-Token"@.len() != "Referer"@.len());
    let h0 = Seq::<(Seq<char>, Seq<char>)>::empty();
    assert(!Seq::<Seq<char>>::empty().contains("bd-ticket-guard-client-data"@));
    lemma_push_fresh_key(h0, "bd-ticket-guard-client-data"@, pairs_lookup(bd, "bd-ticket-guard-client-data"@), Seq::<Seq<char>>::empty());
    let h1 = match pairs_lookup(bd, "bd-ticket-guard-client-data"@) { Some(v) => h0.push(("bd-ticket-guard-client-data"@, v)), None => h0 };
    assert(Seq::<Seq<char>>::empty().push("bd-ticket-guard-client-data"@) =~= seq!["bd-ticket-guard-client-data"@]);
    assert forall|i: int| 0 <= i < h1.len() implies seq!["bd-ticket-guard-client-data"@].contains(#[trigger] h1[i].0) by {
        assert(seq!["bd-ticket-guard-client-data"@][0] == h1[i].0);
    }
    assert(!seq!["bd-ticket-guard-client-data"@].contains("bd-ticket-guard-web-sign-type"@)) by {
        assert forall|i: int| 0 <= i < 1 implies seq!["bd-ticket-guard-client-data"@][i] != "bd-ticket-guard-web-sign-type"@ by { if i == 0 {} }
    }
    lemma_push_fresh_key(h1, "bd-ticket-guard-web-sign-type"@, Some(match pairs_lookup(bd, "bd-ticket-guard-web-sign-type"@) { Some(v) => v, None => "1"@ }), seq!["bd-ticket-guard-client-data"@]);
    let h2 = match Some(match pairs_lookup(bd, "bd-ticket-guard-web-sign-type"@) { Some(v) => v, None => "1"@ }) { Some(v) => h1.push(("bd-ticket-guard-web-sign-type"@, v)), None => h1 };
    assert(seq!["bd-ticket-guard-client-data"@].push("bd-ticket-guard-web-sign-type"@) =~= seq!["bd-ticket-guard-client-data"@, "bd-ticket-guard-web-sign-type"@]);
    assert(!seq!["bd-ticket-guard-client-data"@, "bd-ticket-guard-web-sign-type"@].contains("bd-ticket-guard-version"@)) by {
        assert forall|i: int| 0 <= i < 2 implies seq!["bd-ticket-guard-client-data"@, "bd-ticket-guard-web-sign-type"@][i] != "bd-ticket-guard-version"@ by { if i == 0 {} else if i == 1 {} }
    }
    lemma_push_fresh_key(h2, "bd-ticket-guard-version"@, pairs_lookup(bd, "bd-ticket-guard-version"@), seq!["bd-ticket-guard-client-data"@, "bd-ticket-guard-web-sign-type"@]);
    let h3 = match pairs_lookup(bd, "bd-ticket-guard-version"@) { Some(v) => h2.push(("bd-ticket-guard-version"@, v)), None => h2 };
    assert(seq!["bd-ticket-guard-client-data"@, "bd-ticket-guard-web-sign-type"@].push("bd-ticket-guard-version"@) =~= seq!["bd-ticket-guard-client-data"@, "bd-ticket-guard-web-sign-type"@, "bd-ticket-guard-version"@]);
    assert(!seq!["bd-ticket-guard-client-data"@, "bd-ticket-guard-web-sign-type"@, "bd-ticket-guard-version"@].contains("bd-ticket-guard-web-version"@)) by {
        assert forall|i: int| 0 <= i < 3 implies seq!["bd-ticket-guard-client-data"@, "bd-ticket-guard-web-sign-type"@, "bd-ticket-guard-version"@][i] != "bd-ticket-guard-web-version"@ by { if i == 0 {} else if i == 1 {} else if i == 2 {} }
    }
    lemma_push_fresh_key(h3, "bd-ticket-guard-web-version"@, pairs_lookup(bd, "bd-ticket-guard-web-version"@), seq!["bd-ticket-guard-client-data"@, "bd-ticket-guard-web-sign-type"@, "bd-ticket-guard-version"@]);
    let h4 = match pairs_lookup(bd, "bd-ticket-guard-web-version"@) { Some(v) => h3.push(("bd-ticket-guard-web-version"@, v)), None => h3 };
    assert(seq!["bd-ticket-guard-client-data"@, "bd-ticket-guard-web-sign-type"@, "bd-ticket-guard-version"@].push("bd-ticket-guard-web-version"@) =~= seq!["bd-ticket-guard-client-data"@, "bd-ticket-guard-web-sign-type"@, "bd-ticket-guard-version"@, "bd-ticket-guard-web-version"@]);
    assert(!seq!["bd-ticket-guard-client-data"@, "bd-ticket-guard-web-sign-type"@, "bd-ticket-guard-version"@, "bd-ticket-guard-web-version"@].contains("bd-ticket-guard-ree-public-key"@)) by {
        assert forall|i: int| 0 <= i < 4 implies seq!["bd-ticket-guard-client-data"@, "bd-ticket-guard-web-sign-type"@, "bd-ticket-guard-version"@, "bd-ticket-guard-web-version"@][i] != "bd-ticket-guard-ree-public-key"@ by { if i == 0 {} else if i == 1 {} else if i == 2 {} else if i == 3 {} }
    }
    lemma_push_fresh_key(h4, "bd-ticket-guard-ree-public-key"@, pairs_lookup(bd, "bd-ticket-guard-ree-public-key"@), seq!["bd-ticket-guard-client-data"@, "bd-ticket-guard-web-sign-type"@, "bd-ticket-guard-version"@, "bd-ticket-guard-web-version"@]);
    let h5 = match pairs_lookup(bd, "bd-ticket-guard-ree-public-key"@) { Some(v) => h4.push(("bd-ticket-guard-ree-public-key"@, v)), None => h4 };
    assert(seq!["bd-ticket-guard-client-data"@, "bd-ticket-guard-web-sign-type"@, "bd-ticket-guard-version"@, "bd-ticket-guard-web-version"@].push("bd-ticket-guard-ree-public-key"@) =~= seq!["bd-ticket-guard-client-data"@, "bd-ticket-guard-web-sign-type"@, "bd-ticket-guard-version"@, "bd-ticket-guard-web-version"@, "bd-ticket-guard-ree-public-key"@]);
    assert(!seq!["bd-ticket-guard-client-data"@, "bd-ticket-guard-web-sign-type"@, "bd-ticket-guard-version"@, "bd-ticket-guard-web-version"@, "bd-ticket-guard-ree-public-key"@].contains("bd-ticket-guard-iteration-version"@)) by {
        assert forall|i: int| 0 <= i < 5 implies seq!["bd-ticket-guard-client-data"@, "bd-ticket-guard-web-sign-type"@, "bd-ticket-guard-version"@, "bd-ticket-guard-web-version"@, "bd-ticket-guard-ree-public-key"@][i] != "bd-ticket-guard-iteration-version"@ by { if i == 0 {} else if i == 1 {} else if i == 2 {} else if i == 3 {} else if i == 4 {} }
    }
    lemma_push_fresh_key(h5, "bd-ticket-guard-iteration-version"@, pairs_lookup(bd, "bd-ticket-guard-iteration-version"@), seq!["bd-ticket-guard-client-data"@, "bd-ticket-guard-web-sign-type"@, "bd-ticket-guard-version"@, "bd-ticket-guard-web-version"@, "bd-ticket-guard-ree-public-key"@]);
    let h6 = match pairs_lookup(bd, "bd-ticket-guard-iteration-version"@) { Some(v) => h5.push(("bd-ticket-guard-iteration-version"@, v)), None => h5 };
    assert(seq!["bd-ticket-guard-client-data"@, "bd-ticket-guard-web-sign-type"@, "bd-ticket-guard-version"@, "bd-ticket-guard-web-version"@, "bd-ticket-guard-ree-public-key"@].push("bd-ticket-guard-iteration-version"@) =~= seq!["bd-ticket-guard-client-data"@, "bd-ticket-guard-web-sign-type"@, "bd-ticket-guard-version"@, "bd-ticket-guard-web-version"@, "bd-ticket-guard-ree-public-key"@, "bd-ticket-guard-iteration-version"@]);
    assert(!seq!["bd-ticket-guard-client-data"@, "bd-ticket-guard-web-sign-type"@, "bd-ticket-guard-version"@, "bd-ticket-guard-web-version"@, "bd-ticket-guard-ree-public-key"@, "bd-ticket-guard-iteration-version"@].contains("X-Secsdk-Csrf-Token"@)) by {
        assert forall|i: int| 0 <= i < 6 implies seq!["bd-ticket-guard-client-data"@, "bd-ticket-guard-web-sign-type"@, "bd-ticket-guard-version"@, "bd-ticket-guard-web-version"@, "bd-ticket-guard-ree-public-key"@, "bd-ticket-guard-iteration-version"@][i] != "X-Secsdk-Csrf-Token"@ by { if i == 0 {} else if i == 1 {} else if i == 2 {} else if i == 3 {} else if i == 4 {} else if i == 5 {} }
    }
    lemma_push_fresh_key(h6, "X-Secsdk-Csrf-Token"@, Some(csrf), seq!["bd-ticket-guard-client-data"@, "bd-ticket-guard-web-sign-type"@, "bd-ticket-guard-version"@, "bd-ticket-guard-web-version"@, "bd-ticket-guard-ree-public-key"@, "bd-ticket-guard-iteration-version"@]);
    let h7 = match Some(csrf) { Some(v) => h6.push(("X-Secsdk-Csrf-Token"@, v)), None => h6 };
    assert(seq!["bd-ticket-guard-client-data"@, "bd-ticket-guard-web-sign-type"@, "bd-ticket-guard-version"@, "bd-ticket-guard-web-version"@, "bd-ticket-guard-ree-public-key"@, "bd-ticket-guard-iteration-version"@].push("X-Secsdk-Csrf-Token"@) =~= seq!["bd-ticket-guard-client-data"@, "bd-ticket-guard-web-sign-type"@, "bd-ticket-guard-version"@, "bd-ticket-guard-web-version"@, "bd-ticket-guard-ree-public-key"@, "bd-ticket-guard-iteration-version"@, "X-Secsdk-Csrf-Token"@]);
    assert(!seq!["bd-ticket-guard-client-data"@, "bd-ticket-guard-web-sign-type"@, "bd-ticket-guard-version"@, "bd-ticket-guard-web-version"@, "bd-ticket-guard-ree-public-key"@, "bd-ticket-guard-iteration-version"@, "X-Secsdk-Csrf-Token"@].contains("Referer"@)) by {
        assert forall|i: int| 0 <= i < 7 implies seq!["bd-ticket-guard-client-data"@, "bd-ticket-guard-web-sign-type"@, "bd-ticket-guard-version"@, "bd-ticket-guard-web-version"@, "bd-ticket-guard-ree-public-key"@, "bd-ticket-guard-iteration-version"@, "X-Secsdk-Csrf-Token"@][i] != "Referer"@ by { if i == 0 {} else if i == 1 {} else if i == 2 {} else if i == 3 {} else if i == 4 {} else if i == 5 {} else if i == 6 {} }
    }
    lemma_push_fresh_key(h7, "Referer"@, Some(base_url() + "/creator-micro/content/post/video?enter_from=publish_page"@), seq!["bd-ticket-guard-client-data"@, "bd-ticket-guard-web-sign-type"@, "bd-ticket-guard-version"@, "bd-ticket-guard-web-version"@, "bd-ticket-guard-ree-public-key"@, "bd-ticket-guard-iteration-version"@, "X-Secsdk-Csrf-Token"@]);
    let h8 = match Some(base_url() + "/creator-micro/content/post/video?enter_from=publish_page"@) { Some(v) => h7.push(("Referer"@, v)), None => h7 };
    assert(seq!["bd-ticket-guard-client-data"@, "bd-ticket-guard-web-sign-type"@, "bd-ticket-guard-version"@, "bd-ticket-guard-web-version"@, "bd-ticket-guard-ree-public-key"@, "bd-ticket-guard-iteration-version"@, "X-Secsdk-Csrf-Token"@].push("Referer"@) =~= seq!["bd-ticket-guard-client-data"@, "bd-ticket-guard-web-sign-type"@, "bd-ticket-guard-version"@, "bd-ticket-guard-web-version"@, "bd-ticket-guard-ree-public-key"@, "bd-ticket-guard-iteration-version"@, "X-Secsdk-Csrf-Token"@, "Referer"@]);
    assert(h8 =~= publish_v2_headers_list(bd, csrf));
}

} // verus!
