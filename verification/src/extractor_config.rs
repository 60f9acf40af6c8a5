//! Configuration of the rule based credential extractor: match operators,
//! the rule syntax (`${api:path:request|response:headers|body:field}`,
//! `${localStorage:key}`, or a fixed value), and assembling the result
//! object from extracted data.

use vstd::prelude::*;
use crate::chars::{chars_of, string_of, chars_eq, contains_chars, contains_seq, has_prefix, has_suffix,
    matches_at, starts_with_lit, trim_prefix_all, trim_suffix_char_all, trim_prefix_all_exec,
    trim_suffix_char_all_exec, split_char, split_char_exec, join_with, join_chars, push_chars};
use crate::json::{JsonValue, JsonTree, empty_object, obj_set, members_insert, jstr};
use crate::signature_v4::{pairs_view, pairs_lookup, get_pair, copy_pairs};

verus! {

// ---------------------------------------------------------------------------
// Match operators
// ---------------------------------------------------------------------------

/// A comparison operator of a login success rule.
#[derive(PartialEq, Eq, Structural, Clone, Copy, Debug)]
pub enum MatchOperator {
    Eq,
    Neq,
    Gt,
    Lt,
    Gte,
    Lte,
    Contains,
    NotContains,
    StartsWith,
    EndsWith,
}

/// How two texts compare when both are read as floating point numbers:
/// `Unparsable` when the actual value is not a number, `Unordered` when a
/// comparison is undefined (NaN).
#[derive(PartialEq, Eq, Structural, Clone, Copy, Debug)]
pub enum NumericComparison {
    Unparsable,
    Less,
    Equal,
    Greater,
    Unordered,
}

/// Whether `actual` matches `expected` under the operator; the numeric
/// operators are decided by `numeric`, the floating point comparison of
/// `actual` with `expected`.
pub open spec fn spec_match_value(op: MatchOperator, actual: Seq<char>, expected: Seq<char>, numeric: NumericComparison) -> bool {
    match op {
        MatchOperator::Eq => actual == expected,
        MatchOperator::Neq => actual != expected,
        MatchOperator::Gt => numeric == NumericComparison::Greater,
        MatchOperator::Lt => numeric == NumericComparison::Less,
        MatchOperator::Gte => numeric == NumericComparison::Greater || numeric == NumericComparison::Equal,
        MatchOperator::Lte => numeric == NumericComparison::Less || numeric == NumericComparison::Equal,
        MatchOperator::Contains => contains_seq(actual, expected),
        MatchOperator::NotContains => !contains_seq(actual, expected),
        MatchOperator::StartsWith => has_prefix(actual, expected),
        MatchOperator::EndsWith => actual.len() >= expected.len() && has_suffix(actual, expected),
    }
}

/// The operator with the variant name `name`.
pub open spec fn spec_operator_named(name: Seq<char>) -> Option<MatchOperator> {
    if name == "Eq"@ { Some(MatchOperator::Eq) }
    else if name == "Neq"@ { Some(MatchOperator::Neq) }
    else if name == "Gt"@ { Some(MatchOperator::Gt) }
    else if name == "Lt"@ { Some(MatchOperator::Lt) }
    else if name == "Gte"@ { Some(MatchOperator::Gte) }
    else if name == "Lte"@ { Some(MatchOperator::Lte) }
    else if name == "Contains"@ { Some(MatchOperator::Contains) }
    else if name == "NotContains"@ { Some(MatchOperator::NotContains) }
    else if name == "StartsWith"@ { Some(MatchOperator::StartsWith) }
    else if name == "EndsWith"@ { Some(MatchOperator::EndsWith) }
    else { None }
}

impl MatchOperator {
    /// The operator with the variant name `name`, as stored in a rule.
    pub fn from_name(name: &str) -> (r: Option<MatchOperator>)
        ensures
            r == spec_operator_named(name@),
    {
        let n = chars_of(name);
        if chars_eq(n.as_slice(), chars_of("Eq").as_slice()) { Some(MatchOperator::Eq) }
        else if chars_eq(n.as_slice(), chars_of("Neq").as_slice()) { Some(MatchOperator::Neq) }
        else if chars_eq(n.as_slice(), chars_of("Gt").as_slice()) { Some(MatchOperator::Gt) }
        else if chars_eq(n.as_slice(), chars_of("Lt").as_slice()) { Some(MatchOperator::Lt) }
        else if chars_eq(n.as_slice(), chars_of("Gte").as_slice()) { Some(MatchOperator::Gte) }
        else if chars_eq(n.as_slice(), chars_of("Lte").as_slice()) { Some(MatchOperator::Lte) }
        else if chars_eq(n.as_slice(), chars_of("Contains").as_slice()) { Some(MatchOperator::Contains) }
        else if chars_eq(n.as_slice(), chars_of("NotContains").as_slice()) { Some(MatchOperator::NotContains) }
        else if chars_eq(n.as_slice(), chars_of("StartsWith").as_slice()) { Some(MatchOperator::StartsWith) }
        else if chars_eq(n.as_slice(), chars_of("EndsWith").as_slice()) { Some(MatchOperator::EndsWith) }
        else { None }
    }

    /// Applies the operator to `actual` and `expected`.
    pub fn match_value(&self, actual: &str, expected: &str, numeric: NumericComparison) -> (r: bool)
        ensures
            r == spec_match_value(*self, actual@, expected@, numeric),
    {
        let a = chars_of(actual);
        let e = chars_of(expected);
        match self {
            MatchOperator::Eq => chars_eq(a.as_slice(), e.as_slice()),
            MatchOperator::Neq => !chars_eq(a.as_slice(), e.as_slice()),
            MatchOperator::Gt => numeric == NumericComparison::Greater,
            MatchOperator::Lt => numeric == NumericComparison::Less,
            MatchOperator::Gte => numeric == NumericComparison::Greater || numeric == NumericComparison::Equal,
            MatchOperator::Lte => numeric == NumericComparison::Less || numeric == NumericComparison::Equal,
            MatchOperator::Contains => contains_chars(a.as_slice(), e.as_slice()),
            MatchOperator::NotContains => !contains_chars(a.as_slice(), e.as_slice()),
            MatchOperator::StartsWith => matches_at(a.as_slice(), e.as_slice(), 0),
            MatchOperator::EndsWith => a.len() >= e.len() && matches_at(a.as_slice(), e.as_slice(), a.len() - e.len()),
        }
    }
}

impl Default for MatchOperator {
    fn default() -> (r: Self)
        ensures
            r == MatchOperator::Eq,
    {
        MatchOperator::Eq
    }
}

// ---------------------------------------------------------------------------
// Rules
// ---------------------------------------------------------------------------

/// Where an API rule takes its value from.
pub struct ApiExtractRule {
    /// The API path the captured request must contain.
    pub api_path: String,
    /// `request` or `response`.
    pub request_type: String,
    /// `headers` or `body`.
    pub extract_type: String,
    /// The field path, `:` separated.
    pub field_path: String,
}

/// A parsed extraction rule.
pub enum Rule {
    /// A value used as is.
    FixedValue(String),
    /// A value taken from a captured API request or response.
    ApiExtract(ApiExtractRule),
    /// A value taken from local storage.
    LocalStorageExtract(String),
}

/// The model of a parsed rule.
pub enum RuleModel {
    Fixed(Seq<char>),
    Api(Seq<char>, Seq<char>, Seq<char>, Seq<char>),
    Storage(Seq<char>),
}

impl Rule {
    /// The model of the rule.
    pub open spec fn model(&self) -> RuleModel {
        match self {
            Rule::FixedValue(v) => RuleModel::Fixed(v@),
            Rule::ApiExtract(a) => RuleModel::Api(a.api_path@, a.request_type@, a.extract_type@, a.field_path@),
            Rule::LocalStorageExtract(k) => RuleModel::Storage(k@),
        }
    }
}

/// The body of an API rule: the rule without its leading `${api:` markers
/// and trailing `}` characters.
pub open spec fn api_rule_content(rule: Seq<char>) -> Seq<char> {
    trim_suffix_char_all(trim_prefix_all(rule, "${api:"@), '}')
}

/// An API rule: the `:` separated pieces of its body give the API path,
/// the request type, the extract type and (rejoined by `:`) the field path;
/// with fewer than three pieces the rule is a fixed value.
pub open spec fn spec_parse_api_rule(rule: Seq<char>) -> RuleModel {
    let parts = split_char(api_rule_content(rule), ':');
    if parts.len() < 3 {
        RuleModel::Fixed(rule)
    } else {
        RuleModel::Api(parts[0], parts[1], parts[2], join_with(parts.subrange(3, parts.len() as int), seq![':']))
    }
}

/// A local storage rule: the key between `${localStorage:` and `}`.
pub open spec fn spec_parse_storage_rule(rule: Seq<char>) -> RuleModel {
    RuleModel::Storage(trim_suffix_char_all(trim_prefix_all(rule, "${localStorage:"@), '}'))
}

/// The meaning of a rule text.
pub open spec fn spec_parse_rule(rule: Seq<char>) -> RuleModel {
    if has_prefix(rule, "${api:"@) {
        spec_parse_api_rule(rule)
    } else if has_prefix(rule, "${localStorage:"@) {
        spec_parse_storage_rule(rule)
    } else {
        RuleModel::Fixed(rule)
    }
}

/// Parser of the rule syntax.
pub struct RuleParser;

fn owned(v: &[char]) -> (r: String)
    ensures
        r@ == v@,
{
    string_of(v)
}

impl RuleParser {
    /// Parses a rule text.
    pub fn parse(rule: &str) -> (r: Rule)
        ensures
            r.model() == spec_parse_rule(rule@),
    {
        let v = chars_of(rule);
        if starts_with_lit(v.as_slice(), "${api:") {
            Self::parse_api_rule(rule)
        } else if starts_with_lit(v.as_slice(), "${localStorage:") {
            Self::parse_storage_rule(rule)
        } else {
            Rule::FixedValue(String::from_str(rule))
        }
    }

    /// Parses an API rule `${api:/path:type:kind:field...}`.
    pub fn parse_api_rule(rule: &str) -> (r: Rule)
        ensures
            r.model() == spec_parse_api_rule(rule@),
    {
        let v = chars_of(rule);
        let pre = chars_of("${api:");
        let a = trim_prefix_all_exec(v.as_slice(), pre.as_slice());
        let content = trim_suffix_char_all_exec(a.as_slice(), '}');
        let parts = split_char_exec(content.as_slice(), ':');
        let ghost pv = parts@.map_values(|x: Vec<char>| x@);
        if parts.len() < 3 {
            return Rule::FixedValue(String::from_str(rule));
        }
        let mut rest: Vec<Vec<char>> = Vec::new();
        let mut i: usize = 3;
        while i < parts.len()
            invariant
                3 <= i <= parts@.len(),
                pv == parts@.map_values(|x: Vec<char>| x@),
                rest@.map_values(|x: Vec<char>| x@) == pv.subrange(3, i as int),
            decreases parts.len() - i,
        {
            let mut c: Vec<char> = Vec::new();
            push_chars(&mut c, parts[i].as_slice());
            let ghost before = rest@.map_values(|x: Vec<char>| x@);
            rest.push(c);
            assert(rest@.map_values(|x: Vec<char>| x@) =~= before.push(pv[i as int]));
            assert(pv.subrange(3, i + 1) =~= pv.subrange(3, i as int).push(pv[i as int]));
            i = i + 1;
        }
        let sep: Vec<char> = vec![':'];
        let field = join_chars(&rest, sep.as_slice());
        assert(sep@ =~= seq![':']);
        Rule::ApiExtract(ApiExtractRule {
            api_path: owned(parts[0].as_slice()),
            request_type: owned(parts[1].as_slice()),
            extract_type: owned(parts[2].as_slice()),
            field_path: owned(field.as_slice()),
        })
    }

    /// Parses a local storage rule `${localStorage:key}`.
    pub fn parse_storage_rule(rule: &str) -> (r: Rule)
        ensures
            r.model() == spec_parse_storage_rule(rule@),
    {
        let v = chars_of(rule);
        let pre = chars_of("${localStorage:");
        let a = trim_prefix_all_exec(v.as_slice(), pre.as_slice());
        let key = trim_suffix_char_all_exec(a.as_slice(), '}');
        Rule::LocalStorageExtract(owned(key.as_slice()))
    }
}


// ---------------------------------------------------------------------------
// Configuration
// ---------------------------------------------------------------------------

/// Where the cookie comes from.
pub struct CookieRule {
    /// `from_browser` or `from_api`.
    pub source: String,
    /// API path, for `from_api`.
    pub api_path: Option<String>,
    /// Header name, for `from_api`.
    pub header_name: Option<String>,
}

/// The extraction rules of a platform.
pub struct ExtractRules {
    /// Output name to rule, for the user information.
    pub user_info: Vec<(String, String)>,
    /// Output name to rule, for the request headers.
    pub request_headers: Vec<(String, String)>,
    /// Local storage keys to copy.
    pub local_storage: Vec<String>,
    /// The cookie rule.
    pub cookie: Option<CookieRule>,
}

/// The extraction configuration of a platform.
pub struct PlatformExtractorConfig {
    pub platform_id: String,
    pub platform_name: String,
    pub login_url: String,
    /// `url_match` or `api_match`.
    pub login_success_mode: String,
    /// Glob pattern of the page reached after login (for `url_match`).
    pub login_success_pattern: String,
    pub login_success_api_rule: Option<String>,
    pub login_success_api_operator: Option<String>,
    pub login_success_api_value: Option<String>,
    pub redirect_url: Option<String>,
    pub extract_rules: ExtractRules,
    pub created_at: String,
    pub updated_at: String,
}

fn s(x: &str) -> (r: String)
    ensures
        r@ == x@,
{
    String::from_str(x)
}

fn pair(a: &str, b: &str) -> (r: (String, String))
    ensures
        r.0@ == a@,
        r.1@ == b@,
{
    (String::from_str(a), String::from_str(b))
}

/// Rules of the default configuration: user id, nickname and avatar from the
/// media user info API, eleven request headers from the account info API,
/// seven security SDK local storage keys, and the browser's cookie.
pub open spec fn default_rules_ok(r: ExtractRules) -> bool {
    &&& pairs_view(r.user_info@) == seq![
        ("uid"@, "${api:/web/api/media/user/info:response:body:user:uid}"@),
        ("nickname"@, "${api:/web/api/media/user/info:response:body:user:nickname}"@),
        ("avatar_url"@, "${api:/web/api/media/user/info:response:body:user:avatar_thumb:url_list:0}"@)]
    &&& pairs_view(r.request_headers@) == seq![
        ("accept"@, "${api:/account/api/v1/user/account/info:request:headers:accept}"@),
        ("user-agent"@, "${api:/account/api/v1/user/account/info:request:headers:user-agent}"@),
        ("sec-ch-ua"@, "${api:/account/api/v1/user/account/info:request:headers:sec-ch-ua}"@),
        ("sec-ch-ua-mobile"@, "${api:/account/api/v1/user/account/info:request:headers:sec-ch-ua-mobile}"@),
        ("sec-ch-ua-platform"@, "${api:/account/api/v1/user/account/info:request:headers:sec-ch-ua-platform}"@),
        ("sec-fetch-dest"@, "${api:/account/api/v1/user/account/info:request:headers:sec-fetch-dest}"@),
        ("sec-fetch-mode"@, "${api:/account/api/v1/user/account/info:request:headers:sec-fetch-mode}"@),
        ("sec-fetch-site"@, "${api:/account/api/v1/user/account/info:request:headers:sec-fetch-site}"@),
        ("accept-encoding"@, "${api:/account/api/v1/user/account/info:request:headers:accept-encoding}"@),
        ("accept-language"@, "${api:/account/api/v1/user/account/info:request:headers:accept-language}"@),
        ("x-secsdk-csrf-token"@, "${api:/account/api/v1/user/account/info:request:headers:x-secsdk-csrf-token}"@)]
    &&& r.local_storage@.map_values(|x: String| x@) == seq![
        "security-sdk/s_sdk_cert_key"@, "security-sdk/s_sdk_crypt_sdk"@, "security-sdk/s_sdk_pri_key"@,
        "security-sdk/s_sdk_pub_key"@, "security-sdk/s_sdk_server_cert_key"@,
        "security-sdk/s_sdk_sign_data_key/token"@, "security-sdk/s_sdk_sign_data_key/web_protect"@]
    &&& r.cookie matches Some(c) && c.source@ == "from_browser"@ && c.api_path is None && c.header_name is None
}

impl Default for ExtractRules {
    fn default() -> (r: Self)
        ensures
            default_rules_ok(r),
    {
        let mut user_info: Vec<(String, String)> = Vec::new();
        user_info.push(pair("uid", "${api:/web/api/media/user/info:response:body:user:uid}"));
        user_info.push(pair("nickname", "${api:/web/api/media/user/info:response:body:user:nickname}"));
        user_info.push(pair("avatar_url", "${api:/web/api/media/user/info:response:body:user:avatar_thumb:url_list:0}"));
        let mut h: Vec<(String, String)> = Vec::new();
        h.push(pair("accept", "${api:/account/api/v1/user/account/info:request:headers:accept}"));
        h.push(pair("user-agent", "${api:/account/api/v1/user/account/info:request:headers:user-agent}"));
        h.push(pair("sec-ch-ua", "${api:/account/api/v1/user/account/info:request:headers:sec-ch-ua}"));
        h.push(pair("sec-ch-ua-mobile", "${api:/account/api/v1/user/account/info:request:headers:sec-ch-ua-mobile}"));
        h.push(pair("sec-ch-ua-platform", "${api:/account/api/v1/user/account/info:request:headers:sec-ch-ua-platform}"));
        h.push(pair("sec-fetch-dest", "${api:/account/api/v1/user/account/info:request:headers:sec-fetch-dest}"));
        h.push(pair("sec-fetch-mode", "${api:/account/api/v1/user/account/info:request:headers:sec-fetch-mode}"));
        h.push(pair("sec-fetch-site", "${api:/account/api/v1/user/account/info:request:headers:sec-fetch-site}"));
        h.push(pair("accept-encoding", "${api:/account/api/v1/user/account/info:request:headers:accept-encoding}"));
        h.push(pair("accept-language", "${api:/account/api/v1/user/account/info:request:headers:accept-language}"));
        h.push(pair("x-secsdk-csrf-token", "${api:/account/api/v1/user/account/info:request:headers:x-secsdk-csrf-token}"));
        let mut ls: Vec<String> = Vec::new();
        ls.push(s("security-sdk/s_sdk_cert_key"));
        ls.push(s("security-sdk/s_sdk_crypt_sdk"));
        ls.push(s("security-sdk/s_sdk_pri_key"));
        ls.push(s("security-sdk/s_sdk_pub_key"));
        ls.push(s("security-sdk/s_sdk_server_cert_key"));
        ls.push(s("security-sdk/s_sdk_sign_data_key/token"));
        ls.push(s("security-sdk/s_sdk_sign_data_key/web_protect"));
        let r = ExtractRules {
            user_info,
            request_headers: h,
            local_storage: ls,
            cookie: Some(CookieRule { source: s("from_browser"), api_path: None, header_name: None }),
        };
        assert(pairs_view(r.user_info@) =~= seq![
            ("uid"@, "${api:/web/api/media/user/info:response:body:user:uid}"@),
            ("nickname"@, "${api:/web/api/media/user/info:response:body:user:nickname}"@),
            ("avatar_url"@, "${api:/web/api/media/user/info:response:body:user:avatar_thumb:url_list:0}"@)]);
        assert(pairs_view(r.request_headers@) =~= seq![
            ("accept"@, "${api:/account/api/v1/user/account/info:request:headers:accept}"@),
            ("user-agent"@, "${api:/account/api/v1/user/account/info:request:headers:user-agent}"@),
            ("sec-ch-ua"@, "${api:/account/api/v1/user/account/info:request:headers:sec-ch-ua}"@),
            ("sec-ch-ua-mobile"@, "${api:/account/api/v1/user/account/info:request:headers:sec-ch-ua-mobile}"@),
            ("sec-ch-ua-platform"@, "${api:/account/api/v1/user/account/info:request:headers:sec-ch-ua-platform}"@),
            ("sec-fetch-dest"@, "${api:/account/api/v1/user/account/info:request:headers:sec-fetch-dest}"@),
            ("sec-fetch-mode"@, "${api:/account/api/v1/user/account/info:request:headers:sec-fetch-mode}"@),
            ("sec-fetch-site"@, "${api:/account/api/v1/user/account/info:request:headers:sec-fetch-site}"@),
            ("accept-encoding"@, "${api:/account/api/v1/user/account/info:request:headers:accept-encoding}"@),
            ("accept-language"@, "${api:/account/api/v1/user/account/info:request:headers:accept-language}"@),
            ("x-secsdk-csrf-token"@, "${api:/account/api/v1/user/account/info:request:headers:x-secsdk-csrf-token}"@)]);
        assert(r.local_storage@.map_values(|x: String| x@) =~= seq![
            "security-sdk/s_sdk_cert_key"@, "security-sdk/s_sdk_crypt_sdk"@, "security-sdk/s_sdk_pri_key"@,
            "security-sdk/s_sdk_pub_key"@, "security-sdk/s_sdk_server_cert_key"@,
            "security-sdk/s_sdk_sign_data_key/token"@, "security-sdk/s_sdk_sign_data_key/web_protect"@]);
        r
    }
}

impl Default for PlatformExtractorConfig {
    fn default() -> (r: Self)
        ensures
            r.platform_id@ == "douyin"@,
            r.platform_name@ == "抖音"@,
            r.login_url@ == "https://creator.douyin.com/"@,
            r.login_success_mode@ == "url_match"@,
            r.login_success_pattern@ == "**/creator-micro/**"@,
            r.login_success_api_rule is None,
            r.login_success_api_operator is None,
            r.login_success_api_value is None,
            r.redirect_url is None,
            default_rules_ok(r.extract_rules),
    {
        PlatformExtractorConfig {
            platform_id: s("douyin"),
            platform_name: s("抖音"),
            login_url: s("https://creator.douyin.com/"),
            login_success_mode: s("url_match"),
            login_success_pattern: s("**/creator-micro/**"),
            login_success_api_rule: None,
            login_success_api_operator: None,
            login_success_api_value: None,
            redirect_url: None,
            extract_rules: ExtractRules::default(),
            created_at: crate::crypto::local_now_display(),
            updated_at: crate::crypto::local_now_display(),
        }
    }
}

// ---------------------------------------------------------------------------
// Extracted data and the result object
// ---------------------------------------------------------------------------

/// One local storage entry.
pub struct LocalStorageItem {
    pub key: String,
    pub value: String,
}

/// Data captured in the browser.
pub struct ExtractedData {
    pub user_info: Vec<(String, String)>,
    pub request_headers: Vec<(String, String)>,
    pub local_storage: Vec<LocalStorageItem>,
    pub cookie: String,
}

impl ExtractedData {
    /// Empty extracted data.
    pub fn new() -> (r: Self)
        ensures
            r.user_info@.len() == 0,
            r.request_headers@.len() == 0,
            r.local_storage@.len() == 0,
            r.cookie@.len() == 0,
    {
        ExtractedData { user_info: Vec::new(), request_headers: Vec::new(), local_storage: Vec::new(), cookie: String::new() }
    }
}

impl Default for ExtractedData {
    fn default() -> (r: Self)
        ensures
            r.user_info@.len() == 0,
            r.request_headers@.len() == 0,
            r.local_storage@.len() == 0,
            r.cookie@.len() == 0,
    {
        Self::new()
    }
}

/// The value of the first local storage item with `key`, or the empty text.
pub open spec fn local_value(items: Seq<LocalStorageItem>, key: Seq<char>) -> Seq<char>
    decreases items.len(),
{
    if items.len() == 0 {
        Seq::empty()
    } else if items[0].key@ == key {
        items[0].value@
    } else {
        local_value(items.subrange(1, items.len() as int), key)
    }
}

/// The value a rule gives on extracted data: a fixed value as is; a request
/// header rule the captured header named by its field path (empty when
/// missing); any other API rule the empty text; a local storage rule the
/// stored value.
pub open spec fn spec_evaluate_rule(rule: Seq<char>, ex: ExtractedData) -> Seq<char> {
    match spec_parse_rule(rule) {
        RuleModel::Fixed(v) => v,
        RuleModel::Api(_, rt, et, field) => if rt == "request"@ && et == "headers"@ {
            match pairs_lookup(pairs_view(ex.request_headers@), field) {
                Some(v) => v,
                None => Seq::empty(),
            }
        } else {
            Seq::empty()
        },
        RuleModel::Storage(k) => local_value(ex.local_storage@, k),
    }
}

/// The value of the first local storage item with `key`, or the empty text.
pub fn find_local_value(items: &Vec<LocalStorageItem>, key: &str) -> (r: String)
    ensures
        r@ == local_value(items@, key@),
{
    let kc = chars_of(key);
    let mut i: usize = 0;
    assert(items@.subrange(0, items@.len() as int) == items@);
    while i < items.len()
        invariant
            i <= items.len(),
            kc@ == key@,
            local_value(items@, key@) == local_value(items@.subrange(i as int, items@.len() as int), key@),
        decreases items.len() - i,
    {
        proof {
            let t = items@.subrange(i as int, items@.len() as int);
            assert(t[0] == items@[i as int]);
            assert(t.subrange(1, t.len() as int) == items@.subrange(i + 1, items@.len() as int));
        }
        let ic = chars_of(items[i].key.as_str());
        if chars_eq(ic.as_slice(), kc.as_slice()) {
            return items[i].value.clone();
        }
        i = i + 1;
    }
    String::new()
}

/// Evaluates a rule on extracted data.
pub fn evaluate_rule(rule: &str, extracted: &ExtractedData) -> (r: String)
    ensures
        r@ == spec_evaluate_rule(rule@, *extracted),
{
    let parsed = RuleParser::parse(rule);
    match parsed {
        Rule::FixedValue(v) => v,
        Rule::ApiExtract(a) => {
            if str_eq_lit(a.request_type.as_str(), "request") && str_eq_lit(a.extract_type.as_str(), "headers") {
                match get_pair(&extracted.request_headers, a.field_path.as_str()) {
                    Some(v) => v.clone(),
                    None => String::new(),
                }
            } else {
                String::new()
            }
        },
        Rule::LocalStorageExtract(k) => find_local_value(&extracted.local_storage, k.as_str()),
    }
}

fn str_eq_lit(a: &str, lit: &str) -> (r: bool)
    ensures
        r == (a@ == lit@),
{
    crate::chars::str_eq(a, lit)
}

/// Members from evaluating each `(name, rule)` in turn.
pub open spec fn rule_members(rules: Seq<(Seq<char>, Seq<char>)>, ex: ExtractedData) -> Seq<(Seq<char>, JsonTree)>
    decreases rules.len(),
{
    if rules.len() == 0 {
        Seq::empty()
    } else {
        let last = rules.last();
        members_insert(rule_members(rules.drop_last(), ex), last.0, JsonTree::Str(spec_evaluate_rule(last.1, ex)))
    }
}

/// Members for the configured local storage keys that have a non-empty value.
pub open spec fn local_members(keys: Seq<Seq<char>>, ex: ExtractedData) -> Seq<(Seq<char>, JsonTree)>
    decreases keys.len(),
{
    if keys.len() == 0 {
        Seq::empty()
    } else {
        let prev = local_members(keys.drop_last(), ex);
        let v = local_value(ex.local_storage@, keys.last());
        if v.len() > 0 {
            members_insert(prev, keys.last(), JsonTree::Str(v))
        } else {
            prev
        }
    }
}

/// The result object: `user_info` and `request_headers` from the rules,
/// `local_data` with the non-empty local storage values, and `cookie`.
pub open spec fn spec_result_json(config: PlatformExtractorConfig, ex: ExtractedData) -> JsonTree {
    let m0 = members_insert(Seq::empty(), "user_info"@, JsonTree::Object(rule_members(pairs_view(config.extract_rules.user_info@), ex)));
    let m1 = members_insert(m0, "request_headers"@, JsonTree::Object(rule_members(pairs_view(config.extract_rules.request_headers@), ex)));
    let m2 = members_insert(m1, "local_data"@, JsonTree::Object(local_members(config.extract_rules.local_storage@.map_values(|x: String| x@), ex)));
    JsonTree::Object(members_insert(m2, "cookie"@, JsonTree::Str(ex.cookie@)))
}

fn rules_object(rules: &Vec<(String, String)>, ex: &ExtractedData) -> (r: JsonValue)
    ensures
        r@ == JsonTree::Object(rule_members(pairs_view(rules@), *ex)),
{
    let ghost rv = pairs_view(rules@);
    let mut obj = empty_object();
    let mut i: usize = 0;
    while i < rules.len()
        invariant
            i <= rules.len(),
            rv == pairs_view(rules@),
            obj@ == JsonTree::Object(rule_members(rv.subrange(0, i as int), *ex)),
        decreases rules.len() - i,
    {
        let v = evaluate_rule(rules[i].1.as_str(), ex);
        obj_set(&mut obj, rules[i].0.as_str(), JsonValue::Str(v));
        proof {
            let s1 = rv.subrange(0, i + 1);
            assert(s1.drop_last() == rv.subrange(0, i as int));
            assert(s1.last() == rv[i as int]);
        }
        i = i + 1;
    }
    assert(rv.subrange(0, rules.len() as int) == rv);
    obj
}

/// The result object of an extraction.
pub fn build_result_json(config: &PlatformExtractorConfig, extracted: &ExtractedData) -> (r: JsonValue)
    ensures
        r@ == spec_result_json(*config, *extracted),
{
    let mut result = empty_object();
    let user_info = rules_object(&config.extract_rules.user_info, extracted);
    obj_set(&mut result, "user_info", user_info);
    let request_headers = rules_object(&config.extract_rules.request_headers, extracted);
    obj_set(&mut result, "request_headers", request_headers);
    let keys = &config.extract_rules.local_storage;
    let ghost kv = keys@.map_values(|x: String| x@);
    let mut local = empty_object();
    let mut i: usize = 0;
    while i < keys.len()
        invariant
            i <= keys.len(),
            kv == keys@.map_values(|x: String| x@),
            local@ == JsonTree::Object(local_members(kv.subrange(0, i as int), *extracted)),
        decreases keys.len() - i,
    {
        let v = find_local_value(&extracted.local_storage, keys[i].as_str());
        proof {
            let s1 = kv.subrange(0, i + 1);
            assert(s1.drop_last() == kv.subrange(0, i as int));
            assert(s1.last() == kv[i as int]);
        }
        if v.as_str().unicode_len() > 0 {
            obj_set(&mut local, keys[i].as_str(), JsonValue::Str(v));
        }
        i = i + 1;
    }
    assert(kv.subrange(0, keys.len() as int) == kv);
    obj_set(&mut result, "local_data", local);
    obj_set(&mut result, "cookie", JsonValue::Str(extracted.cookie.clone()));
    result
}

} // verus!
