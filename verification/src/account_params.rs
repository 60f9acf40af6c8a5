//! The parameters stored with a Douyin account: the platform user id and
//! the third party parameters (cookie, user agent, security SDK data and the
//! browser headers captured at login).

use vstd::prelude::*;
use crate::json::{JsonValue, JsonTree, parse_json, spec_parse_json, trees, member_trees,
    lemma_member_trees_index};
use crate::model::{LocalDataItem, local_view, local_items, opt_str};

verus! {

/// The third party parameters.
pub struct ThirdParam {
    pub cookie: Option<String>,
    pub user_agent: Option<String>,
    pub x_secsdk_csrf_token: Option<String>,
    /// The security SDK data: an array of `{key, value}` objects, or such an
    /// array written as a JSON string.
    pub local_data: Option<JsonValue>,
    pub accept: Option<String>,
    pub referer: Option<String>,
    pub accept_language: Option<String>,
    pub accept_encoding: Option<String>,
    pub sec_ch_ua: Option<String>,
    pub sec_ch_ua_mobile: Option<String>,
    pub sec_ch_ua_platform: Option<String>,
    pub sec_fetch_dest: Option<String>,
    pub sec_fetch_mode: Option<String>,
    pub sec_fetch_site: Option<String>,
}

/// The parameters of an account.
pub struct AccountParams {
    pub third_id: Option<String>,
    pub third_param: Option<ThirdParam>,
}

/// Whether member `k` can be read as an optional string: missing, null or
/// a string.
pub open spec fn str_field_ok(t: JsonTree, k: Seq<char>) -> bool {
    match t.get(k) {
        None => true,
        Some(JsonTree::Null) => true,
        Some(JsonTree::Str(_)) => true,
        _ => false,
    }
}

/// The optional string member `k`.
pub open spec fn str_field(t: JsonTree, k: Seq<char>) -> Option<Seq<char>> {
    match t.get(k) {
        Some(JsonTree::Str(s)) => Some(s),
        _ => None,
    }
}

/// The optional member `k` (null counts as missing).
pub open spec fn value_field(t: JsonTree, k: Seq<char>) -> Option<JsonTree> {
    match t.get(k) {
        Some(JsonTree::Null) => None,
        Some(v) => Some(v),
        None => None,
    }
}

/// The names of the string members of the third party parameters.
pub open spec fn third_param_names() -> Seq<Seq<char>> {
    seq!["cookie"@, "user-agent"@, "x-secsdk-csrf-token"@, "accept"@, "referer"@, "accept-language"@,
        "accept-encoding"@, "sec-ch-ua"@, "sec-ch-ua-mobile"@, "sec-ch-ua-platform"@, "sec-fetch-dest"@,
        "sec-fetch-mode"@, "sec-fetch-site"@]
}

/// Whether `t` reads as third party parameters: an object whose string
/// members are strings where present.
pub open spec fn third_param_ok(t: JsonTree) -> bool {
    &&& t is Object
    &&& forall|i: int| 0 <= i < third_param_names().len() ==> str_field_ok(t, #[trigger] third_param_names()[i])
}

/// The string fields of third party parameters, in the order of their names.
pub open spec fn third_param_strs(p: ThirdParam) -> Seq<Option<Seq<char>>> {
    seq![opt_str(p.cookie), opt_str(p.user_agent), opt_str(p.x_secsdk_csrf_token), opt_str(p.accept),
        opt_str(p.referer), opt_str(p.accept_language), opt_str(p.accept_encoding), opt_str(p.sec_ch_ua),
        opt_str(p.sec_ch_ua_mobile), opt_str(p.sec_ch_ua_platform), opt_str(p.sec_fetch_dest),
        opt_str(p.sec_fetch_mode), opt_str(p.sec_fetch_site)]
}

/// Whether `p` holds what `t` gives: each string member, and `local_data`.
pub open spec fn third_param_from(t: JsonTree, p: ThirdParam) -> bool {
    &&& forall|i: int| 0 <= i < 13 ==> #[trigger] third_param_strs(p)[i] == str_field(t, third_param_names()[i])
    &&& match p.local_data {
        Some(v) => value_field(t, "local_data"@) == Some(v@),
        None => value_field(t, "local_data"@) is None,
    }
}

/// Whether `t` reads as account parameters: an object whose `third_id` is
/// a string where present and whose `third_param` reads as third party
/// parameters where present.
pub open spec fn params_ok(t: JsonTree) -> bool {
    &&& t is Object
    &&& str_field_ok(t, "third_id"@)
    &&& match value_field(t, "third_param"@) {
        Some(x) => third_param_ok(x),
        None => true,
    }
}

/// Whether `a` holds what `t` gives.
pub open spec fn params_from(t: JsonTree, a: AccountParams) -> bool {
    &&& opt_str(a.third_id) == str_field(t, "third_id"@)
    &&& match value_field(t, "third_param"@) {
        Some(x) => a.third_param matches Some(p) && third_param_from(x, p),
        None => a.third_param is None,
    }
}

/// The parameters of an account read from its stored text: the empty
/// text, text that is not JSON, and JSON that does not read as parameters
/// all give empty parameters.
pub open spec fn params_of_text(text: Seq<char>, a: AccountParams) -> bool {
    if text.len() > 0 && spec_parse_json(text) is Ok && params_ok(spec_parse_json(text)->Ok_0) {
        params_from(spec_parse_json(text)->Ok_0, a)
    } else {
        a.third_id is None && a.third_param is None
    }
}

fn opt_str_field(v: &JsonValue, k: &str) -> (r: Option<Option<String>>)
    ensures
        r is Some <==> str_field_ok(v@, k@),
        r matches Some(o) ==> opt_str(o) == str_field(v@, k@),
{
    match v.get(k) {
        None => Some(None),
        Some(JsonValue::Null) => Some(None),
        Some(JsonValue::Str(s)) => Some(Some(s.clone())),
        _ => None,
    }
}

fn opt_value_field(v: &JsonValue, k: &str) -> (r: Option<JsonValue>)
    ensures
        match r {
            Some(x) => value_field(v@, k@) == Some(x@),
            None => value_field(v@, k@) is None,
        },
{
    match v.get(k) {
        Some(JsonValue::Null) => None,
        Some(x) => Some(crate::json::copy_json(x)),
        None => None,
    }
}

/// Reads third party parameters from a JSON value.
pub fn third_param_from_value(v: &JsonValue) -> (r: Option<ThirdParam>)
    ensures
        r is Some <==> third_param_ok(v@),
        r matches Some(p) ==> third_param_from(v@, p),
{
    if !v.is_object() {
        return None;
    }
    let ghost names = third_param_names();
    let f0 = opt_str_field(v, "cookie");
    let f1 = opt_str_field(v, "user-agent");
    let f2 = opt_str_field(v, "x-secsdk-csrf-token");
    let f3 = opt_str_field(v, "accept");
    let f4 = opt_str_field(v, "referer");
    let f5 = opt_str_field(v, "accept-language");
    let f6 = opt_str_field(v, "accept-encoding");
    let f7 = opt_str_field(v, "sec-ch-ua");
    let f8 = opt_str_field(v, "sec-ch-ua-mobile");
    let f9 = opt_str_field(v, "sec-ch-ua-platform");
    let f10 = opt_str_field(v, "sec-fetch-dest");
    let f11 = opt_str_field(v, "sec-fetch-mode");
    let f12 = opt_str_field(v, "sec-fetch-site");
    match (f0, f1, f2, f3, f4, f5, f6, f7, f8, f9, f10, f11, f12) {
        (Some(a0), Some(a1), Some(a2), Some(a3), Some(a4), Some(a5), Some(a6), Some(a7), Some(a8),
            Some(a9), Some(a10), Some(a11), Some(a12)) => {
            let p = ThirdParam {
                cookie: a0,
                user_agent: a1,
                x_secsdk_csrf_token: a2,
                local_data: opt_value_field(v, "local_data"),
                accept: a3,
                referer: a4,
                accept_language: a5,
                accept_encoding: a6,
                sec_ch_ua: a7,
                sec_ch_ua_mobile: a8,
                sec_ch_ua_platform: a9,
                sec_fetch_dest: a10,
                sec_fetch_mode: a11,
                sec_fetch_site: a12,
            };
            assert(third_param_ok(v@)) by {
                assert forall|i: int| 0 <= i < names.len() implies str_field_ok(v@, #[trigger] names[i]) by {
                    if i == 0 {} else if i == 1 {} else if i == 2 {} else if i == 3 {} else if i == 4 {}
                    else if i == 5 {} else if i == 6 {} else if i == 7 {} else if i == 8 {} else if i == 9 {}
                    else if i == 10 {} else if i == 11 {} else {}
                }
            }
            assert forall|i: int| 0 <= i < 13 implies #[trigger] third_param_strs(p)[i] == str_field(v@, names[i]) by {
                if i == 0 {} else if i == 1 {} else if i == 2 {} else if i == 3 {} else if i == 4 {}
                else if i == 5 {} else if i == 6 {} else if i == 7 {} else if i == 8 {} else if i == 9 {}
                else if i == 10 {} else if i == 11 {} else {}
            }
            Some(p)
        },
        _ => {
            assert(!third_param_ok(v@)) by {
                if third_param_ok(v@) {
                    assert(str_field_ok(v@, names[0]));
                    assert(str_field_ok(v@, names[1]));
                    assert(str_field_ok(v@, names[2]));
                    assert(str_field_ok(v@, names[3]));
                    assert(str_field_ok(v@, names[4]));
                    assert(str_field_ok(v@, names[5]));
                    assert(str_field_ok(v@, names[6]));
                    assert(str_field_ok(v@, names[7]));
                    assert(str_field_ok(v@, names[8]));
                    assert(str_field_ok(v@, names[9]));
                    assert(str_field_ok(v@, names[10]));
                    assert(str_field_ok(v@, names[11]));
                    assert(str_field_ok(v@, names[12]));
                }
            }
            None
        },
    }
}

/// Reads account parameters from a JSON value.
pub fn params_from_value(v: &JsonValue) -> (r: Option<AccountParams>)
    ensures
        r is Some <==> params_ok(v@),
        r matches Some(a) ==> params_from(v@, a),
{
    if !v.is_object() {
        return None;
    }
    let third_id = match opt_str_field(v, "third_id") {
        Some(t) => t,
        None => { return None; },
    };
    let third_param = match v.get("third_param") {
        None => None,
        Some(JsonValue::Null) => None,
        Some(x) => match third_param_from_value(x) {
            Some(p) => Some(p),
            None => { return None; },
        },
    };
    Some(AccountParams { third_id, third_param })
}

impl AccountParams {
    /// Empty parameters.
    pub fn empty() -> (r: Self)
        ensures
            r.third_id is None,
            r.third_param is None,
    {
        AccountParams { third_id: None, third_param: None }
    }

    /// Reads the parameters stored as `params_json`; what cannot be read
    /// gives empty parameters.
    pub fn from_json(params_json: &str) -> (r: Self)
        ensures
            params_of_text(params_json@, r),
    {
        if params_json.is_empty() {
            return Self::empty();
        }
        match parse_json(params_json) {
            Ok(v) => match params_from_value(&v) {
                Some(a) => a,
                None => Self::empty(),
            },
            Err(_) => Self::empty(),
        }
    }

    /// The cookie, or the empty text.
    pub fn get_cookie(&self) -> (r: String)
        ensures
            r@ == match self.third_param { Some(p) => crate::model::or_empty(p.cookie), None => Seq::empty() },
    {
        match &self.third_param {
            Some(p) => match &p.cookie {
                Some(c) => c.clone(),
                None => String::new(),
            },
            None => String::new(),
        }
    }

    /// The user agent, or the empty text.
    pub fn get_user_agent(&self) -> (r: String)
        ensures
            r@ == match self.third_param { Some(p) => crate::model::or_empty(p.user_agent), None => Seq::empty() },
    {
        match &self.third_param {
            Some(p) => match &p.user_agent {
                Some(c) => c.clone(),
                None => String::new(),
            },
            None => String::new(),
        }
    }

    /// The platform user id, or the empty text.
    pub fn get_third_id(&self) -> (r: String)
        ensures
            r@ == crate::model::or_empty(self.third_id),
    {
        match &self.third_id {
            Some(c) => c.clone(),
            None => String::new(),
        }
    }

    /// The CSRF token, or the empty text.
    pub fn get_x_secsdk_csrf_token(&self) -> (r: String)
        ensures
            r@ == match self.third_param { Some(p) => crate::model::or_empty(p.x_secsdk_csrf_token), None => Seq::empty() },
    {
        match &self.third_param {
            Some(p) => match &p.x_secsdk_csrf_token {
                Some(c) => c.clone(),
                None => String::new(),
            },
            None => String::new(),
        }
    }

    /// The security SDK items: the usable `{key, value}` objects of the
    /// `local_data` array, or of the array written in the `local_data`
    /// string; nothing otherwise.
    pub fn get_local_data(&self) -> (r: Vec<LocalDataItem>)
        ensures
            local_view(r@) == match self.third_param {
                Some(p) => match p.local_data {
                    Some(v) => local_data_items(v@),
                    None => Seq::empty(),
                },
                None => Seq::empty(),
            },
    {
        match &self.third_param {
            Some(p) => match &p.local_data {
                Some(v) => local_data_from_value(v),
                None => Vec::new(),
            },
            None => Vec::new(),
        }
    }
}

/// The usable items of security SDK data given as an array, or as an
/// array written in a string.
pub open spec fn local_data_items(t: JsonTree) -> Seq<(Seq<char>, Seq<char>)> {
    match t {
        JsonTree::Array(a) => local_items(a),
        JsonTree::Str(s) => match spec_parse_json(s) {
            Ok(JsonTree::Array(a)) => local_items(a),
            _ => Seq::empty(),
        },
        _ => Seq::empty(),
    }
}

/// The usable items of security SDK data.
pub fn local_data_from_value(v: &JsonValue) -> (r: Vec<LocalDataItem>)
    ensures
        local_view(r@) == local_data_items(v@),
{
    match v {
        JsonValue::Array(a) => crate::model::local_data_from(a),
        JsonValue::Str(s) => match parse_json(s.as_str()) {
            Ok(JsonValue::Array(a)) => crate::model::local_data_from(&a),
            _ => Vec::new(),
        },
        _ => Vec::new(),
    }
}

} // verus!
