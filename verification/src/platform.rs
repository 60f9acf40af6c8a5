//! The Douyin platform as the application sees it (what each platform
//! operation answers, and the request it publishes after looking up the
//! account), the older direct publisher's caption and publication data, and
//! the registry of publishing strategies.

use vstd::prelude::*;
use std::sync::Arc;
use crate::model::{PlatformType, PlatformError, UserAccount, PlatformCredentials, PlatformPublication,
    PublicationStats, DatabaseManager, PublishResult, local_view, or_empty};
use crate::account_params::{AccountParams, params_of_text, local_data_items};
use crate::publish_strategy::{PublishRequest, DouyinPublishStrategy};
use crate::douyin_api::BdTicketConfig;
use crate::json::{JsonValue, JsonTree, JsonNumber, empty_object, obj_set, jstr, int_tree, object_of, json_text,
    to_json_string, trees};
use crate::numfmt::{dec, push_dec};
use crate::chars::{chars_of, string_of, push_str};
use crate::text::{trimmed, trim_str};
use crate::douyin_utils::unix_time_millis;
use crate::publish_strategy::{lemma_object_of_steps, lemma_encode_concat};
use vstd::utf8::encode_utf8;

verus! {

// ---------------------------------------------------------------------------
// The Douyin platform
// ---------------------------------------------------------------------------

/// The Douyin platform, with the storage it reads accounts from.
pub struct DouyinPlatform {
    pub db_manager: Option<Arc<DatabaseManager>>,
}

/// The credentials in stored parameters: cookie, user agent, user id and
/// security SDK items, no secondary user id.
pub open spec fn credentials_in(a: AccountParams, c: PlatformCredentials) -> bool {
    &&& c.cookie@ == match a.third_param { Some(p) => or_empty(p.cookie), None => Seq::empty() }
    &&& c.user_agent@ == match a.third_param { Some(p) => or_empty(p.user_agent), None => Seq::empty() }
    &&& c.third_id@ == or_empty(a.third_id)
    &&& c.sec_uid is None
    &&& local_view(c.local_data@) == match a.third_param {
        Some(p) => match p.local_data { Some(v) => local_data_items(v@), None => Seq::empty() },
        None => Seq::empty(),
    }
}

impl DouyinPlatform {
    /// The platform without storage.
    pub fn new() -> (r: Self)
        ensures
            r.db_manager is None,
    {
        DouyinPlatform { db_manager: None }
    }

    /// The platform reading accounts from `db_manager`.
    pub fn with_storage(db_manager: DatabaseManager) -> (r: Self)
        ensures
            r.db_manager matches Some(d) && *d == db_manager,
    {
        DouyinPlatform { db_manager: Some(Arc::new(db_manager)) }
    }

    /// The platform's kind.
    pub fn platform_type(&self) -> (r: PlatformType)
        ensures
            r == PlatformType::Douyin,
    {
        PlatformType::Douyin
    }

    /// The platform's name.
    pub fn platform_name(&self) -> (r: String)
        ensures
            r@ == "抖音"@,
    {
        String::from_str("抖音")
    }

    /// Accounts are authenticated through the browser command instead.
    pub fn authenticate_account(&self) -> (r: Result<UserAccount, PlatformError>)
        ensures
            r matches Err(PlatformError::AuthenticationFailed(m)) && m@ == "浏览器认证需要使用 start_browser_auth 命令"@,
    {
        Err(PlatformError::AuthenticationFailed(String::from_str("浏览器认证需要使用 start_browser_auth 命令")))
    }

    /// Credentials are renewed by authenticating in the browser again.
    pub fn refresh_credentials(&self, account_id: &str) -> (r: Result<UserAccount, PlatformError>)
        ensures
            r matches Err(PlatformError::AuthenticationFailed(m)) && m@ == "请重新进行浏览器认证"@,
    {
        Err(PlatformError::AuthenticationFailed(String::from_str("请重新进行浏览器认证")))
    }

    /// The status of a publication cannot be read from the platform.
    pub fn get_publication_status(&self, publication_id: &str) -> (r: Result<PlatformPublication, PlatformError>)
        ensures
            r matches Err(PlatformError::PublicationFailed(m)) && m@ == "暂不支持获取发布状态"@,
    {
        Err(PlatformError::PublicationFailed(String::from_str("暂不支持获取发布状态")))
    }

    /// The counts of an account cannot be read from the platform.
    pub fn get_account_stats(&self, account_id: &str) -> (r: Result<PublicationStats, PlatformError>)
        ensures
            r matches Err(PlatformError::PublicationFailed(m)) && m@ == "暂不支持获取账号统计"@,
    {
        Err(PlatformError::PublicationFailed(String::from_str("暂不支持获取账号统计")))
    }

    /// The credentials in an account's stored parameters; they must hold a
    /// cookie, a user agent and a user id (else `账号参数不完整`).
    pub fn get_credentials_from_params(&self, params: &str) -> (r: Result<PlatformCredentials, PlatformError>)
        ensures
            exists|a: AccountParams| #[trigger] params_of_text(params@, a) && {
                let cookie = match a.third_param { Some(p) => or_empty(p.cookie), None => Seq::empty() };
                let ua = match a.third_param { Some(p) => or_empty(p.user_agent), None => Seq::empty() };
                if cookie.len() == 0 || ua.len() == 0 || or_empty(a.third_id).len() == 0 {
                    r matches Err(PlatformError::InvalidCredentials(m)) && m@ == "账号参数不完整"@
                } else {
                    r matches Ok(c) && credentials_in(a, c)
                }
            },
    {
        let a = AccountParams::from_json(params);
        let cookie = a.get_cookie();
        let user_agent = a.get_user_agent();
        let third_id = a.get_third_id();
        let local_data = a.get_local_data();
        if cookie.as_str().is_empty() || user_agent.as_str().is_empty() || third_id.as_str().is_empty() {
            return Err(PlatformError::InvalidCredentials(String::from_str("账号参数不完整")));
        }
        Ok(PlatformCredentials { cookie, user_agent, third_id, sec_uid: None, local_data })
    }

    /// The request to publish after looking up its account (`lookup`: the
    /// stored account, none, or the storage failure's text). Without
    /// storage nothing can be published; a missing account, a failed lookup
    /// and parameters without a user id are refused; otherwise the request
    /// carries the account's parameters and user id.
    pub fn publish_request(&self, request: PublishRequest, lookup: Result<Option<UserAccount>, String>)
        -> (r: Result<PublishRequest, PlatformError>)
        ensures
            self.db_manager is None ==> (r matches Err(PlatformError::InvalidInput(m)) && m@ == "平台未配置数据库连接"@),
            self.db_manager is Some ==> match lookup {
                Ok(None) => r matches Err(PlatformError::InvalidInput(m)) && m@ == "账号不存在: "@ + request.account_id@,
                Err(d) => r matches Err(PlatformError::InvalidInput(m)) && m@ == "查询账号失败: "@ + d@,
                Ok(Some(acc)) => exists|a: AccountParams| #[trigger] params_of_text(acc.params@, a) && {
                    if or_empty(a.third_id).len() == 0 {
                        r matches Err(PlatformError::InvalidInput(m)) && m@ == "thirdId不能为空"@
                    } else {
                        r matches Ok(q) && q == (PublishRequest { params: acc.params, third_id: q.third_id, ..request })
                            && (q.third_id matches Some(t) && t@ == or_empty(a.third_id))
                    }
                },
            },
    {
        if self.db_manager.is_none() {
            return Err(PlatformError::InvalidInput(String::from_str("平台未配置数据库连接")));
        }
        let account = match lookup {
            Ok(Some(acc)) => acc,
            Ok(None) => {
                return Err(PlatformError::InvalidInput(String::from_str("账号不存在: ").concat(request.account_id.as_str())));
            },
            Err(d) => {
                return Err(PlatformError::InvalidInput(String::from_str("查询账号失败: ").concat(d.as_str())));
            },
        };
        let a = AccountParams::from_json(account.params.as_str());
        let third_id = a.get_third_id();
        if third_id.as_str().is_empty() {
            return Err(PlatformError::InvalidInput(String::from_str("thirdId不能为空")));
        }
        Ok(PublishRequest { params: account.params, third_id: Some(third_id), ..request })
    }
}

// ---------------------------------------------------------------------------
// The registry of publishing strategies
// ---------------------------------------------------------------------------

/// The publishing strategies registered, one per platform.
pub struct PublishStrategyFactory {
    registered: Vec<PlatformType>,
}

impl PublishStrategyFactory {
    /// No platform occurs twice.
    #[verifier::type_invariant]
    spec fn no_repeats(self) -> bool {
        forall|i: int, j: int| 0 <= i < j < self.registered@.len() ==> self.registered@[i] != self.registered@[j]
    }

    /// The platforms that have a strategy.
    pub closed spec fn platforms(self) -> Set<PlatformType> {
        self.registered@.to_set()
    }

    /// A registry without strategies.
    pub fn new() -> (r: Self)
        ensures
            r.platforms() == Set::<PlatformType>::empty(),
    {
        let r = PublishStrategyFactory { registered: Vec::new() };
        assert(r.registered@.to_set() =~= Set::<PlatformType>::empty());
        r
    }

    /// Registers the strategy of `platform_type` (replacing an earlier one).
    pub fn register(&mut self, platform_type: PlatformType)
        ensures
            final(self).platforms() == old(self).platforms().insert(platform_type),
    {
        proof { use_type_invariant(&*self); }
        if !self.is_supported(platform_type) {
            let mut v: Vec<PlatformType> = Vec::new();
            std::mem::swap(&mut v, &mut self.registered);
            let ghost before = v@;
            v.push(platform_type);
            proof {
                assert(!before.contains(platform_type));
                assert forall|i: int, j: int| 0 <= i < j < v@.len() implies v@[i] != v@[j] by {
                    if j == v@.len() - 1 {
                        assert(before[i] == v@[i]);
                        assert(before.contains(v@[i]));
                    }
                }
                assert(v@ == before.push(platform_type));
                assert forall|x: PlatformType| v@.contains(x) <==> before.to_set().insert(platform_type).contains(x) by {
                    if v@.contains(x) {
                        let k = choose|k: int| 0 <= k < v@.len() && v@[k] == x;
                        if k < before.len() {
                            assert(before[k] == x);
                        }
                    }
                    if before.contains(x) {
                        let k = choose|k: int| 0 <= k < before.len() && before[k] == x;
                        assert(v@[k] == x);
                    }
                    assert(v@[before.len() as int] == platform_type);
                }
                assert(v@.to_set() =~= before.to_set().insert(platform_type));
            }
            self.registered = v;
        } else {
            assert(self.registered@.to_set() =~= self.registered@.to_set().insert(platform_type));
        }
    }

    /// Whether `platform_type` has a strategy.
    pub fn is_supported(&self, platform_type: PlatformType) -> (r: bool)
        ensures
            r == self.platforms().contains(platform_type),
    {
        let mut i: usize = 0;
        while i < self.registered.len()
            invariant
                i <= self.registered@.len(),
                forall|j: int| 0 <= j < i ==> self.registered@[j] != platform_type,
            decreases self.registered.len() - i,
        {
            if self.registered[i] == platform_type {
                assert(self.registered@.to_set().contains(platform_type));
                return true;
            }
            i = i + 1;
        }
        proof {
            if self.registered@.to_set().contains(platform_type) {
                let k = choose|k: int| 0 <= k < self.registered@.len() && self.registered@[k] == platform_type;
                assert(self.registered@[k] != platform_type);
            }
        }
        false
    }

    /// The strategy of `platform_type`, if registered (Douyin's is the only
    /// strategy there is).
    pub fn get_service(&self, platform_type: PlatformType) -> (r: Option<DouyinPublishStrategy>)
        ensures
            r is Some == self.platforms().contains(platform_type),
    {
        if self.is_supported(platform_type) { Some(DouyinPublishStrategy::new()) } else { None }
    }

    /// The platforms that have a strategy, each once, in registration order.
    pub fn supported_platforms(&self) -> (r: Vec<PlatformType>)
        ensures
            r@.to_set() == self.platforms(),
            r@.len() == self.platforms().len(),
    {
        proof {
            use_type_invariant(self);
            self.registered@.unique_seq_to_set();
        }
        let mut out: Vec<PlatformType> = Vec::new();
        let mut i: usize = 0;
        while i < self.registered.len()
            invariant
                i <= self.registered@.len(),
                out@ == self.registered@.subrange(0, i as int),
            decreases self.registered.len() - i,
        {
            out.push(self.registered[i]);
            i = i + 1;
            assert(out@ =~= self.registered@.subrange(0, i as int));
        }
        assert(out@ =~= self.registered@);
        out
    }

    /// Removes every strategy.
    pub fn clear(&mut self)
        ensures
            final(self).platforms() == Set::<PlatformType>::empty(),
    {
        self.registered = Vec::new();
        assert(self.registered@.to_set() =~= Set::<PlatformType>::empty());
    }
}

/// The registry the application starts with: Douyin's strategy.
pub fn init_default_strategies() -> (r: PublishStrategyFactory)
    ensures
        r.platforms() == set![PlatformType::Douyin],
{
    let mut f = PublishStrategyFactory::new();
    f.register(PlatformType::Douyin);
    assert(Set::<PlatformType>::empty().insert(PlatformType::Douyin) =~= set![PlatformType::Douyin]);
    f
}

// ---------------------------------------------------------------------------
// The direct publisher
// ---------------------------------------------------------------------------

/// Publishes a video on one account step by step (upload credentials,
/// upload, hashtags, publication).
pub struct DouyinPublisher {
    pub account: UserAccount,
    pub credentials: PlatformCredentials,
    pub bd_ticket_config: BdTicketConfig,
}

/// The caption after appending `#name` for each hashtag found.
pub open spec fn publisher_caption(desc: Seq<char>, c: Seq<(Seq<char>, Seq<char>)>) -> Seq<char>
    decreases c.len(),
{
    if c.len() == 0 { desc } else { publisher_caption(desc, c.drop_last()) + "#"@ + c.last().0 }
}

/// The record of one hashtag: its byte range in the caption, its name and id.
pub open spec fn hashtag_record(name: Seq<char>, id: Seq<char>, start: int, end: int) -> JsonTree {
    object_of(seq![
        ("start"@, int_tree(start)),
        ("end"@, int_tree(end)),
        ("type"@, int_tree(1)),
        ("hashtag_name"@, JsonTree::Str(name)),
        ("hashtag_id"@, JsonTree::Str(id)),
        ("user_id"@, JsonTree::Str(Seq::empty())),
    ])
}

/// The records of the hashtags appended to the caption, each with the
/// UTF-8 byte range that its `#name` occupies.
pub open spec fn publisher_records(desc: Seq<char>, c: Seq<(Seq<char>, Seq<char>)>) -> Seq<JsonTree>
    decreases c.len(),
{
    if c.len() == 0 {
        Seq::empty()
    } else {
        let before = publisher_caption(desc, c.drop_last());
        publisher_records(desc, c.drop_last()).push(hashtag_record(c.last().0, c.last().1,
            encode_utf8(before).len() as int, encode_utf8(before + "#"@ + c.last().0).len() as int))
    }
}

/// A caption built from fewer hashtags has no more UTF-8 bytes.
proof fn lemma_caption_prefix(desc: Seq<char>, c: Seq<(Seq<char>, Seq<char>)>, k: int)
    requires
        0 <= k <= c.len(),
    ensures
        encode_utf8(publisher_caption(desc, c.subrange(0, k))).len() <= encode_utf8(publisher_caption(desc, c)).len(),
    decreases c.len() - k,
{
    if k < c.len() {
        lemma_caption_prefix(desc, c, k + 1);
        let q = c.subrange(0, k + 1);
        assert(q.drop_last() == c.subrange(0, k));
        let p = publisher_caption(desc, c.subrange(0, k));
        assert(publisher_caption(desc, q) == p + ("#"@ + q.last().0));
        lemma_encode_concat(p, "#"@ + q.last().0);
    } else {
        assert(c.subrange(0, k) == c);
    }
}

fn pos(n: usize) -> (r: JsonValue)
    ensures
        r@ == int_tree(n as int),
{
    JsonValue::Number(JsonNumber::PosInt(n as u64))
}

fn record_value(name: &String, id: &String, start: usize, end: usize) -> (r: JsonValue)
    ensures
        r@ == hashtag_record(name@, id@, start as int, end as int),
{
    let mut o = empty_object();
    obj_set(&mut o, "start", pos(start));
    obj_set(&mut o, "end", pos(end));
    obj_set(&mut o, "type", pos(1));
    obj_set(&mut o, "hashtag_name", JsonValue::Str(name.clone()));
    obj_set(&mut o, "hashtag_id", JsonValue::Str(id.clone()));
    obj_set(&mut o, "user_id", JsonValue::Str(String::new()));
    proof {
        lemma_object_of_steps(seq![
            ("start"@, int_tree(start as int)),
            ("end"@, int_tree(end as int)),
            ("type"@, int_tree(1)),
            ("hashtag_name"@, JsonTree::Str(name@)),
            ("hashtag_id"@, JsonTree::Str(id@)),
            ("user_id"@, JsonTree::Str(Seq::empty())),
        ]);
    }
    o
}

/// The `common` part of the direct publisher's publication data.
pub open spec fn publisher_common_json(title: Seq<char>, download: i32, visibility: i32, video_id: Seq<char>,
    caption: Seq<char>, records: Seq<JsonTree>, creation_id: Seq<char>) -> JsonTree {
    object_of(seq![
        ("text"@, JsonTree::Str(trimmed(title + " "@ + caption))),
        ("caption"@, JsonTree::Str(caption)),
        ("item_title"@, JsonTree::Str(title)),
        ("activity"@, JsonTree::Str("[]"@)),
        ("text_extra"@, JsonTree::Str(json_text(JsonTree::Array(records)))),
        ("challenges"@, JsonTree::Str("[]"@)),
        ("mentions"@, JsonTree::Str("[]"@)),
        ("hashtag_source"@, JsonTree::Str("recommend/recommend"@)),
        ("hot_sentence"@, JsonTree::Str(Seq::empty())),
        ("download"@, int_tree(download as int)),
        ("visibility_type"@, int_tree(visibility as int)),
        ("timing"@, int_tree(0)),
        ("creation_id"@, JsonTree::Str(creation_id)),
        ("media_type"@, int_tree(4)),
        ("video_id"@, JsonTree::Str(video_id)),
        ("source_info"@, JsonTree::Str("{}"@)),
    ])
}

/// The publication data of the direct publisher.
pub open spec fn publisher_data_json(title: Seq<char>, download: i32, visibility: i32, video_id: Seq<char>,
    caption: Seq<char>, records: Seq<JsonTree>, creation_id: Seq<char>) -> JsonTree {
    let common = publisher_common_json(title, download, visibility, video_id, caption, records, creation_id);
    let empty = JsonTree::Object(Seq::empty());
    object_of(seq![("item"@, object_of(seq![
        ("common"@, common),
        ("anchor"@, empty),
        ("mix"@, empty),
        ("sync"@, object_of(seq![("should_sync"@, JsonTree::Bool(false)), ("sync_to_toutiao"@, int_tree(0))])),
        ("open_platform"@, empty),
        ("assistant"@, object_of(seq![("is_preview"@, int_tree(0)), ("is_post_assistant"@, int_tree(1))])),
        ("declare"@, object_of(seq![("user_declare_info"@, JsonTree::Str("{}"@))])),
    ]))])
}

fn ji(i: i32) -> (r: JsonValue)
    ensures
        r@ == int_tree(i as int),
{
    crate::json::jint(i as i64)
}

fn common_value(title: &str, download_allowed: i32, visibility_type: i32, video_id: &str,
    caption: &str, records: &Vec<JsonValue>, creation_id: &str) -> (r: JsonValue)
    ensures
        r@ == publisher_common_json(title@, download_allowed, visibility_type, video_id@, caption@, trees(records@),
            creation_id@),
{
        let full = trim_str(String::from_str(title).concat(" ").concat(caption).as_str());
        let mut copies: Vec<JsonValue> = Vec::new();
        let mut i: usize = 0;
        while i < records.len()
            invariant
                i <= records.len(),
                trees(copies@) == trees(records@.subrange(0, i as int)),
            decreases records.len() - i,
        {
            let x = crate::json::copy_json(&records[i]);
            let ghost before = copies@;
            copies.push(x);
            proof {
                let q = records@.subrange(0, i + 1);
                assert(q.drop_last() == records@.subrange(0, i as int));
                assert(copies@.drop_last() == before);
            }
            i = i + 1;
        }
        assert(records@.subrange(0, records.len() as int) == records@);
        let text_extra = to_json_string(&JsonValue::Array(copies));
        let mut common = empty_object();
        obj_set(&mut common, "text", JsonValue::Str(full));
        obj_set(&mut common, "caption", jstr(caption));
        obj_set(&mut common, "item_title", jstr(title));
        obj_set(&mut common, "activity", jstr("[]"));
        obj_set(&mut common, "text_extra", JsonValue::Str(text_extra));
        obj_set(&mut common, "challenges", jstr("[]"));
        obj_set(&mut common, "mentions", jstr("[]"));
        obj_set(&mut common, "hashtag_source", jstr("recommend/recommend"));
        obj_set(&mut common, "hot_sentence", JsonValue::Str(String::new()));
        obj_set(&mut common, "download", ji(download_allowed));
        obj_set(&mut common, "visibility_type", ji(visibility_type));
        obj_set(&mut common, "timing", ji(0));
        obj_set(&mut common, "creation_id", jstr(creation_id));
        obj_set(&mut common, "media_type", ji(4));
        obj_set(&mut common, "video_id", jstr(video_id));
        obj_set(&mut common, "source_info", jstr("{}"));
        proof {
            lemma_object_of_steps(seq![
                ("text"@, JsonTree::Str(trimmed(title@ + " "@ + caption@))),
                ("caption"@, JsonTree::Str(caption@)),
                ("item_title"@, JsonTree::Str(title@)),
                ("activity"@, JsonTree::Str("[]"@)),
                ("text_extra"@, JsonTree::Str(json_text(JsonTree::Array(trees(records@))))),
                ("challenges"@, JsonTree::Str("[]"@)),
                ("mentions"@, JsonTree::Str("[]"@)),
                ("hashtag_source"@, JsonTree::Str("recommend/recommend"@)),
                ("hot_sentence"@, JsonTree::Str(Seq::empty())),
                ("download"@, int_tree(download_allowed as int)),
                ("visibility_type"@, int_tree(visibility_type as int)),
                ("timing"@, int_tree(0)),
                ("creation_id"@, JsonTree::Str(creation_id@)),
                ("media_type"@, int_tree(4)),
                ("video_id"@, JsonTree::Str(video_id@)),
                ("source_info"@, JsonTree::Str("{}"@)),
            ]);
        }
        common
}

impl DouyinPublisher {
    /// A publisher for an account and its credentials.
    pub fn new(account: UserAccount, credentials: PlatformCredentials, bd_ticket_config: BdTicketConfig) -> (r: Self)
        ensures
            r.account == account,
            r.credentials == credentials,
            r.bd_ticket_config == bd_ticket_config,
    {
        DouyinPublisher { account, credentials, bd_ticket_config }
    }

    /// The caption and hashtag records: the description, then `#name` for
    /// each hashtag found (name, id), each recorded with its byte range.
    pub fn caption_with_hashtags(&self, description: &str, found: &Vec<(String, String)>) -> (r: (String, Vec<JsonValue>))
        requires
            encode_utf8(publisher_caption(description@, found@.map_values(|x: (String, String)| (x.0@, x.1@)))).len()
                <= usize::MAX,
        ensures
            r.0@ == publisher_caption(description@, found@.map_values(|x: (String, String)| (x.0@, x.1@))),
            trees(r.1@) == publisher_records(description@, found@.map_values(|x: (String, String)| (x.0@, x.1@))),
    {
        let ghost c = found@.map_values(|x: (String, String)| (x.0@, x.1@));
        let mut caption = String::from_str(description);
        let mut records: Vec<JsonValue> = Vec::new();
        let mut i: usize = 0;
        while i < found.len()
            invariant
                i <= found.len(),
                c == found@.map_values(|x: (String, String)| (x.0@, x.1@)),
                encode_utf8(publisher_caption(description@, c)).len() <= usize::MAX,
                caption@ == publisher_caption(description@, c.subrange(0, i as int)),
                trees(records@) == publisher_records(description@, c.subrange(0, i as int)),
            decreases found.len() - i,
        {
            proof {
                let q = c.subrange(0, i + 1);
                assert(q.drop_last() == c.subrange(0, i as int));
                assert(q.last() == (found@[i as int].0@, found@[i as int].1@));
            }
            let ghost before_cap = caption@;
            proof {
                lemma_caption_prefix(description@, c, i as int);
                lemma_caption_prefix(description@, c, i + 1);
                assert(c.subrange(0, i + 1).drop_last() == c.subrange(0, i as int));
            }
            let start = caption.as_str().len();
            assert(start == encode_utf8(before_cap).len());
            caption = caption.concat("#").concat(found[i].0.as_str());
            assert(caption@ == before_cap + "#"@ + found@[i as int].0@);
            let end = caption.as_str().len();
            assert(end == encode_utf8(caption@).len());
            let rec = record_value(&found[i].0, &found[i].1, start, end);
            let ghost before = records@;
            let ghost rv = rec@;
            records.push(rec);
            proof {
                let q = c.subrange(0, i + 1);
                assert(records@.drop_last() == before);
                assert(trees(records@) == trees(before).push(rv));
                assert(publisher_records(description@, q) == publisher_records(description@, q.drop_last()).push(
                    hashtag_record(q.last().0, q.last().1, encode_utf8(before_cap).len() as int,
                    encode_utf8(before_cap + "#"@ + q.last().0).len() as int)));
            }
            i = i + 1;
        }
        assert(c.subrange(0, found.len() as int) == c);
        (caption, records)
    }

    /// The publication data: the full text (title and caption, trimmed),
    /// the caption, the title, the hashtag records as JSON text, the flags,
    /// the creation id and the video id, and the fixed parts.
    pub fn build_publish_data(&self, title: &str, download_allowed: i32, visibility_type: i32, video_id: &str,
        caption: &str, records: &Vec<JsonValue>, creation_id: &str) -> (r: JsonValue)
        ensures
            r@ == publisher_data_json(title@, download_allowed, visibility_type, video_id@, caption@, trees(records@),
                creation_id@),
    {
        let common = common_value(title, download_allowed, visibility_type, video_id, caption, records, creation_id);
        let mut sync = empty_object();
        obj_set(&mut sync, "should_sync", JsonValue::Bool(false));
        obj_set(&mut sync, "sync_to_toutiao", ji(0));
        proof {
            lemma_object_of_steps(seq![("should_sync"@, JsonTree::Bool(false)), ("sync_to_toutiao"@, int_tree(0))]);
        }
        let mut assistant = empty_object();
        obj_set(&mut assistant, "is_preview", ji(0));
        obj_set(&mut assistant, "is_post_assistant", ji(1));
        proof {
            lemma_object_of_steps(seq![("is_preview"@, int_tree(0)), ("is_post_assistant"@, int_tree(1))]);
        }
        let mut declare = empty_object();
        obj_set(&mut declare, "user_declare_info", jstr("{}"));
        proof {
            lemma_object_of_steps(seq![("user_declare_info"@, JsonTree::Str("{}"@))]);
        }
        let ghost cv = common@;
        let ghost sv = sync@;
        let ghost av = assistant@;
        let ghost dv = declare@;
        let mut item = empty_object();
        obj_set(&mut item, "common", common);
        obj_set(&mut item, "anchor", empty_object());
        obj_set(&mut item, "mix", empty_object());
        obj_set(&mut item, "sync", sync);
        obj_set(&mut item, "open_platform", empty_object());
        obj_set(&mut item, "assistant", assistant);
        obj_set(&mut item, "declare", declare);
        proof {
            let e = JsonTree::Object(Seq::empty());
            lemma_object_of_steps(seq![("common"@, cv), ("anchor"@, e), ("mix"@, e), ("sync"@, sv),
                ("open_platform"@, e), ("assistant"@, av), ("declare"@, dv)]);
        }
        let ghost iv = item@;
        let mut data = empty_object();
        obj_set(&mut data, "item", item);
        proof {
            lemma_object_of_steps(seq![("item"@, iv)]);
        }
        data
    }

    /// The creation id of a publication made at `millis` (Unix milliseconds).
    pub fn creation_id_at(millis: u128) -> (r: String)
        ensures
            r@ == "creation_"@ + dec(millis as nat),
    {
        let mut out: Vec<char> = Vec::new();
        push_str(&mut out, "creation_");
        push_dec(&mut out, millis);
        string_of(out.as_slice())
    }

    /// The creation id of a publication made now.
    pub fn generate_creation_id() -> (r: String)
        ensures
            exists|m: nat| r@ == "creation_"@ + dec(m),
    {
        Self::creation_id_at(unix_time_millis())
    }

    /// The result of a publication that went through: the new publication
    /// id and the published item's id.
    pub fn published(publication_id: String, item_id: String) -> (r: PublishResult)
        ensures
            r.success && r.publication_id == publication_id && r.item_id == Some(item_id) && r.error_message is None,
    {
        PublishResult { success: true, publication_id, item_id: Some(item_id), error_message: None }
    }
}

} // verus!
