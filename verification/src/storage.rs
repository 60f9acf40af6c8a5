//! The stored records' rules that do not depend on the database engine:
//! the default extraction configuration, the JSON form of stored
//! configurations, a configuration saved from the settings page, and the
//! task status update after its accounts' statuses change.

use vstd::prelude::*;
use crate::json::{JsonValue, JsonTree, parse_json, spec_parse_json, empty_object, obj_set, jstr, json_text,
    to_json_string, object_of, trees};
use crate::model::{PublicationStatus, spec_task_status, strs};
use crate::publish_strategy::lemma_object_of_steps;

verus! {

/// A stored extraction configuration of a platform.
pub struct ExtractorConfig {
    pub id: String,
    pub platform_id: String,
    pub platform_name: String,
    pub login_url: String,
    pub login_success_pattern: String,
    pub redirect_url: Option<String>,
    pub extract_rules: JsonValue,
    pub is_default: bool,
    pub created_at: String,
    pub updated_at: String,
}

/// The user fields of Douyin's default rules.
pub open spec fn default_user_info() -> JsonTree {
    object_of(seq![
        ("nickname"@, JsonTree::Str("${api:/web/api/media/user/info:response:body:user:nickname}"@)),
        ("avatar_url"@, JsonTree::Str("${api:/web/api/media/user/info:response:body:user:avatar_thumb:url_list:0}"@)),
        ("third_id"@, JsonTree::Str("${api:/account/api/v1/user/account/info:response:body:user:uid}"@)),
        ("sec_uid"@, JsonTree::Str("${api:/web/api/media/user/info:response:body:user:sec_uid}"@)),
    ])
}

/// The request header fields of Douyin's default rules.
pub open spec fn default_request_headers() -> JsonTree {
    object_of(seq![
        ("cookie"@, JsonTree::Str("${api:/account/api/v1/user/account/info:request:headers:cookie}"@)),
    ])
}

/// The local storage keys of Douyin's default rules.
pub open spec fn default_local_storage() -> JsonTree {
    JsonTree::Array(seq![
        JsonTree::Str("security-sdk/s_sdk_cert_key"@),
        JsonTree::Str("security-sdk/s_sdk_crypt_sdk"@),
        JsonTree::Str("security-sdk/s_sdk_pri_key"@),
        JsonTree::Str("security-sdk/s_sdk_pub_key"@),
    ])
}

/// The cookie source of Douyin's default rules.
pub open spec fn default_cookie_rule() -> JsonTree {
    object_of(seq![
        ("source"@, JsonTree::Str("from_api"@)),
        ("api_path"@, JsonTree::Str("/account/api/v1/user/account/info"@)),
        ("header_name"@, JsonTree::Str("cookie"@)),
    ])
}

/// The default extraction rules of Douyin.
pub open spec fn douyin_default_rules() -> JsonTree {
    object_of(seq![
        ("user_info"@, default_user_info()),
        ("request_headers"@, default_request_headers()),
        ("local_storage"@, default_local_storage()),
        ("cookie"@, default_cookie_rule()),
    ])
}

/// A default configuration row: id, platform id and name, login address,
/// login pattern, redirect address, and the rules as JSON text.
pub struct DefaultConfigRow {
    pub id: String,
    pub platform_id: String,
    pub platform_name: String,
    pub login_url: String,
    pub login_success_pattern: String,
    pub redirect_url: String,
    pub extract_rules: String,
}

fn user_info_rules() -> (r: JsonValue)
    ensures
        r@ == default_user_info(),
{
    let mut u = empty_object();
    obj_set(&mut u, "nickname", jstr("${api:/web/api/media/user/info:response:body:user:nickname}"));
    obj_set(&mut u, "avatar_url", jstr("${api:/web/api/media/user/info:response:body:user:avatar_thumb:url_list:0}"));
    obj_set(&mut u, "third_id", jstr("${api:/account/api/v1/user/account/info:response:body:user:uid}"));
    obj_set(&mut u, "sec_uid", jstr("${api:/web/api/media/user/info:response:body:user:sec_uid}"));
    proof {
        lemma_object_of_steps(seq![
            ("nickname"@, JsonTree::Str("${api:/web/api/media/user/info:response:body:user:nickname}"@)),
            ("avatar_url"@, JsonTree::Str("${api:/web/api/media/user/info:response:body:user:avatar_thumb:url_list:0}"@)),
            ("third_id"@, JsonTree::Str("${api:/account/api/v1/user/account/info:response:body:user:uid}"@)),
            ("sec_uid"@, JsonTree::Str("${api:/web/api/media/user/info:response:body:user:sec_uid}"@)),
        ]);
    }
    u
}

fn request_header_rules() -> (r: JsonValue)
    ensures
        r@ == default_request_headers(),
{
    let mut h = empty_object();
    obj_set(&mut h, "cookie", jstr("${api:/account/api/v1/user/account/info:request:headers:cookie}"));
    proof {
        lemma_object_of_steps(seq![
            ("cookie"@, JsonTree::Str("${api:/account/api/v1/user/account/info:request:headers:cookie}"@)),
        ]);
    }
    h
}

fn local_storage_rules() -> (r: JsonValue)
    ensures
        r@ == default_local_storage(),
{
    let mut v: Vec<JsonValue> = Vec::new();
    v.push(jstr("security-sdk/s_sdk_cert_key"));
    v.push(jstr("security-sdk/s_sdk_crypt_sdk"));
    v.push(jstr("security-sdk/s_sdk_pri_key"));
    v.push(jstr("security-sdk/s_sdk_pub_key"));
    proof {
        crate::json::lemma_trees_index(v@);
        assert(trees(v@) =~= default_local_storage()->Array_0);
    }
    JsonValue::Array(v)
}

fn cookie_rule() -> (r: JsonValue)
    ensures
        r@ == default_cookie_rule(),
{
    let mut c = empty_object();
    obj_set(&mut c, "source", jstr("from_api"));
    obj_set(&mut c, "api_path", jstr("/account/api/v1/user/account/info"));
    obj_set(&mut c, "header_name", jstr("cookie"));
    proof {
        lemma_object_of_steps(seq![
            ("source"@, JsonTree::Str("from_api"@)),
            ("api_path"@, JsonTree::Str("/account/api/v1/user/account/info"@)),
            ("header_name"@, JsonTree::Str("cookie"@)),
        ]);
    }
    c
}

/// Douyin's default extraction rules.
pub fn douyin_rules() -> (r: JsonValue)
    ensures
        r@ == douyin_default_rules(),
{
    let u = user_info_rules();
    let h = request_header_rules();
    let l = local_storage_rules();
    let c = cookie_rule();
    let mut rules = empty_object();
    obj_set(&mut rules, "user_info", u);
    obj_set(&mut rules, "request_headers", h);
    obj_set(&mut rules, "local_storage", l);
    obj_set(&mut rules, "cookie", c);
    proof {
        lemma_object_of_steps(seq![
            ("user_info"@, default_user_info()),
            ("request_headers"@, default_request_headers()),
            ("local_storage"@, default_local_storage()),
            ("cookie"@, default_cookie_rule()),
        ]);
    }
    rules
}

/// The default configurations inserted into a new database (an existing
/// configuration with the same id is kept): Douyin's.
pub fn default_configs() -> (r: Vec<DefaultConfigRow>)
    ensures
        r@.len() == 1,
        r@[0].id@ == "config_douyin"@,
        r@[0].platform_id@ == "douyin"@,
        r@[0].platform_name@ == "抖音"@,
        r@[0].login_url@ == "https://creator.douyin.com/"@,
        r@[0].login_success_pattern@ == "**/creator-micro/**"@,
        r@[0].redirect_url@ == "https://creator.douyin.com/creator-micro/content/post"@,
        r@[0].extract_rules@ == json_text(douyin_default_rules()),
{
    let rules = douyin_rules();
    let mut v: Vec<DefaultConfigRow> = Vec::new();
    v.push(DefaultConfigRow {
        id: String::from_str("config_douyin"),
        platform_id: String::from_str("douyin"),
        platform_name: String::from_str("抖音"),
        login_url: String::from_str("https://creator.douyin.com/"),
        login_success_pattern: String::from_str("**/creator-micro/**"),
        redirect_url: String::from_str("https://creator.douyin.com/creator-micro/content/post"),
        extract_rules: to_json_string(&rules),
    });
    v
}

/// A redirect address as JSON: its text, or null.
pub open spec fn redirect_tree(u: Option<String>) -> JsonTree {
    match u {
        Some(x) => JsonTree::Str(x@),
        None => JsonTree::Null,
    }
}

/// The JSON form of a stored configuration, as the settings page reads it.
pub open spec fn config_json(c: ExtractorConfig) -> JsonTree {
    object_of(seq![
        ("id"@, JsonTree::Str(c.id@)),
        ("platform_id"@, JsonTree::Str(c.platform_id@)),
        ("platform_name"@, JsonTree::Str(c.platform_name@)),
        ("login_url"@, JsonTree::Str(c.login_url@)),
        ("login_success_pattern"@, JsonTree::Str(c.login_success_pattern@)),
        ("redirect_url"@, redirect_tree(c.redirect_url)),
        ("extract_rules"@, c.extract_rules@),
        ("is_default"@, JsonTree::Bool(c.is_default)),
        ("created_at"@, JsonTree::Str(c.created_at@)),
        ("updated_at"@, JsonTree::Str(c.updated_at@)),
    ])
}

/// The JSON form of a stored configuration.
pub fn extractor_config_json(c: &ExtractorConfig) -> (r: JsonValue)
    ensures
        r@ == config_json(*c),
{
    let mut o = empty_object();
    obj_set(&mut o, "id", jstr(c.id.as_str()));
    obj_set(&mut o, "platform_id", jstr(c.platform_id.as_str()));
    obj_set(&mut o, "platform_name", jstr(c.platform_name.as_str()));
    obj_set(&mut o, "login_url", jstr(c.login_url.as_str()));
    obj_set(&mut o, "login_success_pattern", jstr(c.login_success_pattern.as_str()));
    let redirect = match &c.redirect_url { Some(u) => jstr(u.as_str()), None => JsonValue::Null };
    obj_set(&mut o, "redirect_url", redirect);
    obj_set(&mut o, "extract_rules", crate::json::copy_json(&c.extract_rules));
    obj_set(&mut o, "is_default", JsonValue::Bool(c.is_default));
    obj_set(&mut o, "created_at", jstr(c.created_at.as_str()));
    obj_set(&mut o, "updated_at", jstr(c.updated_at.as_str()));
    proof {
        let rv = redirect_tree(c.redirect_url);
        lemma_object_of_steps(seq![
            ("id"@, JsonTree::Str(c.id@)),
            ("platform_id"@, JsonTree::Str(c.platform_id@)),
            ("platform_name"@, JsonTree::Str(c.platform_name@)),
            ("login_url"@, JsonTree::Str(c.login_url@)),
            ("login_success_pattern"@, JsonTree::Str(c.login_success_pattern@)),
            ("redirect_url"@, rv),
            ("extract_rules"@, c.extract_rules@),
            ("is_default"@, JsonTree::Bool(c.is_default)),
            ("created_at"@, JsonTree::Str(c.created_at@)),
            ("updated_at"@, JsonTree::Str(c.updated_at@)),
        ]);
    }
    o
}

/// A configuration saved from the settings page at `now`: its rules must be
/// JSON (else `Invalid extract_rules JSON: <reason>`); its id is
/// `config_<platform id>`; it is not a default one.
pub fn new_extractor_config(platform_id: &str, platform_name: &str, login_url: &str, login_success_pattern: &str,
    redirect_url: Option<String>, extract_rules: &str, now: String) -> (r: Result<ExtractorConfig, String>)
    ensures
        match spec_parse_json(extract_rules@) {
            Err(e) => r matches Err(m) && m@ == "Invalid extract_rules JSON: "@ + e,
            Ok(t) => r matches Ok(c) && c.id@ == "config_"@ + platform_id@ && c.platform_id@ == platform_id@
                && c.platform_name@ == platform_name@ && c.login_url@ == login_url@
                && c.login_success_pattern@ == login_success_pattern@ && c.redirect_url == redirect_url
                && c.extract_rules@ == t && !c.is_default && c.created_at == now && c.updated_at == now,
        },
{
    let rules = match parse_json(extract_rules) {
        Ok(v) => v,
        Err(e) => { return Err(String::from_str("Invalid extract_rules JSON: ").concat(e.as_str())); },
    };
    Ok(ExtractorConfig {
        id: String::from_str("config_").concat(platform_id),
        platform_id: String::from_str(platform_id),
        platform_name: String::from_str(platform_name),
        login_url: String::from_str(login_url),
        login_success_pattern: String::from_str(login_success_pattern),
        redirect_url,
        extract_rules: rules,
        is_default: false,
        created_at: now.clone(),
        updated_at: now,
    })
}

/// Whether a stored configuration may be deleted, from its stored default
/// flag (none when it could not be read): default configurations (flag 1)
/// are kept.
pub fn config_deletable(stored_default_flag: Option<i64>) -> (r: bool)
    ensures
        r == (stored_default_flag != Some(1i64)),
{
    match stored_default_flag {
        Some(f) => f != 1,
        None => true,
    }
}

/// The new status of a task after its accounts' statuses changed: none when
/// it has no accounts, else the status the accounts' statuses give.
pub fn task_status_update(account_statuses: &Vec<String>) -> (r: Option<PublicationStatus>)
    ensures
        account_statuses@.len() == 0 ==> r is None,
        account_statuses@.len() > 0 ==> r == Some(spec_task_status(strs(account_statuses@))),
{
    if account_statuses.len() == 0 {
        None
    } else {
        Some(crate::model::calculate_task_status(account_statuses.as_slice()))
    }
}

} // verus!
