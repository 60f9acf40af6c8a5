//! Douyin authorization: the state of a login run, and turning the
//! credentials captured in the browser into a stored account.

use vstd::prelude::*;
use crate::chars::{chars_of, string_of, has_prefix, split_char, split_char_exec, push_chars};
use crate::json::{JsonValue, JsonTree, parse_json, spec_parse_json, json_text, to_json_string,
    empty_object, obj_set, jstr, member_trees, lemma_member_trees_index, trees, object_of,
    members_insert, members_insert_all};
use crate::model::{UserAccount, PlatformType, AccountStatus, PlatformError};
use crate::text::{trimmed, trim_chars};

verus! {

/// The state of a login run.
pub enum AuthState {
    Idle,
    WaitingForLogin,
    ExtractingCredentials,
    Completed,
    Failed(String),
}

impl AuthState {
    /// A copy of the state.
    pub fn copy(&self) -> (r: Self)
        ensures
            r == *self,
    {
        match self {
            AuthState::Idle => AuthState::Idle,
            AuthState::WaitingForLogin => AuthState::WaitingForLogin,
            AuthState::ExtractingCredentials => AuthState::ExtractingCredentials,
            AuthState::Completed => AuthState::Completed,
            AuthState::Failed(m) => AuthState::Failed(m.clone()),
        }
    }
}

/// What a login check reports.
pub struct AuthResult {
    pub account: Option<UserAccount>,
    pub state: AuthState,
    pub message: String,
}

/// The credentials captured in the browser.
pub struct CredentialsData {
    pub cookie: String,
    pub user_agent: String,
    /// The local storage, a JSON object text.
    pub local_storage: String,
    pub nickname: String,
    pub avatar_url: String,
}

/// The authorization flow of Douyin.
pub struct DouyinAuthenticator {
    pub auth_state: AuthState,
    pub login_url: String,
    pub upload_url: String,
}

/// Where the user logs in.
pub open spec fn login_url_text() -> Seq<char> {
    "https://creator.douyin.com/site/login"@
}

/// The video upload page.
pub open spec fn upload_url_text() -> Seq<char> {
    "https://creator.douyin.com/creator-micro/content/post/video"@
}

// ---------------------------------------------------------------------------
// Reading captured credentials
// ---------------------------------------------------------------------------

/// The value of the first cookie (of the `;` separated pieces, trimmed)
/// that begins with `name=`: the text between its first and its second
/// `=`; nothing when there is no such cookie.
pub open spec fn cookie_value(pieces: Seq<Seq<char>>, name: Seq<char>) -> Seq<char>
    decreases pieces.len(),
{
    if pieces.len() == 0 {
        Seq::empty()
    } else {
        let c = trimmed(pieces[0]);
        if has_prefix(c, name + "="@) {
            split_char(c, '=')[1]
        } else {
            cookie_value(pieces.subrange(1, pieces.len() as int), name)
        }
    }
}

/// The value of the cookie `name` in a cookie header.
pub open spec fn spec_extract_from_cookies(cookies: Seq<char>, name: Seq<char>) -> Seq<char> {
    cookie_value(split_char(cookies, ';'), name)
}

pub proof fn lemma_split_from_len(s: Seq<char>, c: char, cur: Seq<char>)
    ensures
        split_from(s, c, cur).len() >= 1,
        (exists|i: int| 0 <= i < s.len() && s[i] == c) ==> split_from(s, c, cur).len() >= 2,
    decreases s.len(),
{
    if s.len() > 0 {
        let r = s.subrange(1, s.len() as int);
        if s[0] == c {
            lemma_split_from_len(r, c, Seq::empty());
        } else {
            lemma_split_from_len(r, c, cur.push(s[0]));
            if exists|i: int| 0 <= i < s.len() && s[i] == c {
                let i = choose|i: int| 0 <= i < s.len() && s[i] == c;
                assert(r[i - 1] == c);
            }
        }
    }
}

use crate::chars::split_from;

/// The value of the cookie `name` in a cookie header, or the empty text.
pub fn extract_from_cookies(cookies: &str, name: &str) -> (r: String)
    ensures
        r@ == spec_extract_from_cookies(cookies@, name@),
{
    let v = chars_of(cookies);
    let pieces = split_char_exec(v.as_slice(), ';');
    let ghost pv = pieces@.map_values(|x: Vec<char>| x@);
    assert(pv == split_char(cookies@, ';'));
    let mut prefix = chars_of(name);
    prefix.push('=');
    proof { reveal_strlit("="); }
    assert(prefix@ == name@ + "="@);
    let mut i: usize = 0;
    assert(pv.subrange(0, pv.len() as int) == pv);
    while i < pieces.len()
        invariant
            i <= pieces.len(),
            pv == pieces@.map_values(|x: Vec<char>| x@),
            pv == split_char(cookies@, ';'),
            prefix@ == name@ + "="@,
            cookie_value(pv, name@) == cookie_value(pv.subrange(i as int, pv.len() as int), name@),
        decreases pieces.len() - i,
    {
        proof {
            let t = pv.subrange(i as int, pv.len() as int);
            assert(t[0] == pieces@[i as int]@);
            assert(t.subrange(1, t.len() as int) == pv.subrange(i + 1, pv.len() as int));
        }
        let c = trim_chars(pieces[i].as_slice());
        if crate::chars::matches_at(c.as_slice(), prefix.as_slice(), 0) {
            let parts = split_char_exec(c.as_slice(), '=');
            let ghost cv = c@;
            proof {
                reveal_strlit("=");
                assert(cv.subrange(0, prefix@.len() as int) == prefix@);
                assert(cv[name@.len() as int] == cv.subrange(0, prefix@.len() as int)[name@.len() as int]);
                assert(cv[name@.len() as int] == '=');
                assert(exists|k: int| 0 <= k < cv.len() && cv[k] == '=');
                lemma_split_from_len(cv, '=', Seq::empty());
                assert(parts@.map_values(|x: Vec<char>| x@).len() == parts@.len());
                assert(parts@.len() >= 2);
                assert(parts@.map_values(|x: Vec<char>| x@)[1] == parts@[1]@);
            }
            return string_of(parts[1].as_slice());
        }
        i = i + 1;
    }
    String::new()
}

/// The string stored under `key` in a local storage JSON text.
pub open spec fn spec_extract_from_localstorage(local_storage: Seq<char>, key: Seq<char>) -> Option<Seq<char>> {
    match spec_parse_json(local_storage) {
        Ok(t) => match t.get(key) {
            Some(v) => v.as_str(),
            None => None,
        },
        Err(_) => None,
    }
}

/// The string stored under `key` in a local storage JSON text.
pub fn extract_from_localstorage(local_storage: &str, key: &str) -> (r: Option<String>)
    ensures
        crate::model::opt_str(r) == spec_extract_from_localstorage(local_storage@, key@),
{
    match parse_json(local_storage) {
        Ok(v) => match v.get(key) {
            Some(x) => match x.as_str() {
                Some(s) => Some(s.clone()),
                None => None,
            },
            None => None,
        },
        Err(_) => None,
    }
}

/// A local storage member as a `{key, value}` object (a non-string value
/// as the empty text).
pub open spec fn local_item_json(kv: (Seq<char>, JsonTree)) -> JsonTree {
    object_of(seq![
        ("key"@, JsonTree::Str(kv.0)),
        ("value"@, JsonTree::Str(match kv.1 { JsonTree::Str(s) => s, _ => Seq::empty() })),
    ])
}

/// The security SDK items of a local storage object: each member as a
/// `{key, value}` object.
pub open spec fn local_data_json(local_storage: Seq<char>) -> Seq<JsonTree> {
    match spec_parse_json(local_storage) {
        Ok(JsonTree::Object(m)) => m.map_values(|kv: (Seq<char>, JsonTree)| local_item_json(kv)),
        _ => Seq::empty(),
    }
}

proof fn lemma_local_item_json(kv: (Seq<char>, JsonTree), v: Seq<char>)
    requires
        v == (match kv.1 { JsonTree::Str(s) => s, _ => Seq::<char>::empty() }),
    ensures
        local_item_json(kv) == object_of(seq![("key"@, JsonTree::Str(kv.0)), ("value"@, JsonTree::Str(v))]),
{
    let a = local_item_json(kv);
    let b = object_of(seq![("key"@, JsonTree::Str(kv.0)), ("value"@, JsonTree::Str(v))]);
    let sa = seq![("key"@, JsonTree::Str(kv.0)), ("value"@, JsonTree::Str(v))];
    assert(a == object_of(seq![
        ("key"@, JsonTree::Str(kv.0)),
        ("value"@, JsonTree::Str(match kv.1 { JsonTree::Str(s) => s, _ => Seq::empty() })),
    ]));
    assert(JsonTree::Str(v) == JsonTree::Str(match kv.1 { JsonTree::Str(s) => s, _ => Seq::<char>::empty() }));
    assert(sa =~= seq![
        ("key"@, JsonTree::Str(kv.0)),
        ("value"@, JsonTree::Str(match kv.1 { JsonTree::Str(s) => s, _ => Seq::empty() })),
    ]);
    assert(a == b);
}

proof fn lemma_object_of_2(a: (Seq<char>, JsonTree), b: (Seq<char>, JsonTree))
    ensures
        object_of(seq![a, b]) == JsonTree::Object(members_insert(members_insert(Seq::empty(), a.0, a.1), b.0, b.1)),
{
    let s = seq![a, b];
    let e0 = Seq::<(Seq<char>, JsonTree)>::empty();
    assert(s.drop_last() == seq![a]);
    assert(seq![a].drop_last() == e0);
    assert(members_insert_all(e0, e0) == e0);
    assert(members_insert_all(e0, seq![a]) == members_insert(e0, a.0, a.1));
    assert(members_insert_all(e0, s) == members_insert(members_insert(e0, a.0, a.1), b.0, b.1));
}

fn local_data_value(local_storage: &str) -> (r: JsonValue)
    ensures
        r@ == JsonTree::Array(local_data_json(local_storage@)),
{
    let parsed = parse_json(local_storage);
    let v = match parsed {
        Ok(v) => v,
        Err(_) => {
            let out: Vec<JsonValue> = Vec::new();
            assert(trees(out@) =~= Seq::<JsonTree>::empty());
            return JsonValue::Array(out);
        },
    };
    assert(spec_parse_json(local_storage@) == Ok::<JsonTree, Seq<char>>(v@));
    let e = match v {
        JsonValue::Object(e) => e,
        _ => {
            let out: Vec<JsonValue> = Vec::new();
            assert(trees(out@) =~= Seq::<JsonTree>::empty());
            return JsonValue::Array(out);
        },
    };
    let ghost m = member_trees(e@);
    let ghost all = local_data_json(local_storage@);
    proof {
        lemma_member_trees_index(e@);
        assert(all == m.map_values(|kv: (Seq<char>, JsonTree)| local_item_json(kv)));
    }
    let mut out: Vec<JsonValue> = Vec::new();
    let mut i: usize = 0;
    while i < e.len()
        invariant
            i <= e.len(),
            m == member_trees(e@),
            m.len() == e@.len(),
            forall|j: int| 0 <= j < e@.len() ==> #[trigger] m[j] == (e@[j].0@, e@[j].1@),
            all.len() == m.len(),
            forall|j: int| 0 <= j < m.len() ==> #[trigger] all[j] == local_item_json(m[j]),
            trees(out@) == all.subrange(0, i as int),
        decreases e.len() - i,
    {
        let ghost vv = match m[i as int].1 { JsonTree::Str(s) => s, _ => Seq::<char>::empty() };
        assert(m[i as int] == (e@[i as int].0@, e@[i as int].1@));
        let val = match &e[i].1 {
            JsonValue::Str(s) => {
                assert(e@[i as int].1@ == JsonTree::Str(s@));
                jstr(s.as_str())
            },
            JsonValue::Null => JsonValue::Str(String::new()),
            JsonValue::Bool(_) => JsonValue::Str(String::new()),
            JsonValue::Number(_) => JsonValue::Str(String::new()),
            JsonValue::Array(_) => JsonValue::Str(String::new()),
            JsonValue::Object(_) => JsonValue::Str(String::new()),
        };
        proof {
            reveal_strlit("");
            assert(m[i as int] == (e@[i as int].0@, e@[i as int].1@));
            assert(val@ == JsonTree::Str(vv));
        }
        let mut o = empty_object();
        let ghost e0 = Seq::<(Seq<char>, JsonTree)>::empty();
        obj_set(&mut o, "key", jstr(e[i].0.as_str()));
        assert(o@ == JsonTree::Object(members_insert(e0, "key"@, JsonTree::Str(m[i as int].0))));
        obj_set(&mut o, "value", val);
        assert(o@ == JsonTree::Object(members_insert(members_insert(e0, "key"@, JsonTree::Str(m[i as int].0)), "value"@, JsonTree::Str(vv))));
        proof {
            assert(m[i as int] == (e@[i as int].0@, e@[i as int].1@));
            lemma_object_of_2(("key"@, JsonTree::Str(m[i as int].0)), ("value"@, JsonTree::Str(vv)));
            assert(all[i as int] == local_item_json(m[i as int]));
            lemma_local_item_json(m[i as int], vv);
            assert(local_item_json(m[i as int]) == JsonTree::Object(members_insert(members_insert(e0, "key"@, JsonTree::Str(m[i as int].0)), "value"@, JsonTree::Str(vv))));
            assert(o@ == all[i as int]);
        }
        let ghost before = out@;
        let ghost ov = o@;
        out.push(o);
        proof {
            assert(out@.drop_last() == before);
            assert(trees(out@) == trees(before).push(ov));
            assert(all.subrange(0, i + 1) == all.subrange(0, i as int).push(all[i as int]));
        }
        i = i + 1;
    }
    assert(all.subrange(0, e.len() as int) == all);
    JsonValue::Array(out)
}

/// The stored parameters of a Douyin account: cookie, user agent, platform
/// user id, secure user id and security SDK items.
pub open spec fn auth_params_json(cookie: Seq<char>, user_agent: Seq<char>, third_id: Seq<char>,
    sec_uid: Seq<char>, local_data: Seq<JsonTree>) -> JsonTree {
    object_of(seq![
        ("cookie"@, JsonTree::Str(cookie)),
        ("user_agent"@, JsonTree::Str(user_agent)),
        ("third_id"@, JsonTree::Str(third_id)),
        ("sec_uid"@, JsonTree::Str(sec_uid)),
        ("local_data"@, JsonTree::Array(local_data)),
    ])
}

fn params_text(cookie: &str, user_agent: &str, third_id: &str, sec_uid: &str, local_data: JsonValue) -> (r: String)
    requires
        local_data@ is Array,
    ensures
        r@ == json_text(auth_params_json(cookie@, user_agent@, third_id@, sec_uid@, local_data@->Array_0)),
{
    let ghost ld = local_data@;
    let mut o = empty_object();
    obj_set(&mut o, "cookie", jstr(cookie));
    obj_set(&mut o, "user_agent", jstr(user_agent));
    obj_set(&mut o, "third_id", jstr(third_id));
    obj_set(&mut o, "sec_uid", jstr(sec_uid));
    obj_set(&mut o, "local_data", local_data);
    proof {
        let s5 = seq![
            ("cookie"@, JsonTree::Str(cookie@)),
            ("user_agent"@, JsonTree::Str(user_agent@)),
            ("third_id"@, JsonTree::Str(third_id@)),
            ("sec_uid"@, JsonTree::Str(sec_uid@)),
            ("local_data"@, ld),
        ];
        let e0 = Seq::<(Seq<char>, JsonTree)>::empty();
        let s4 = s5.drop_last();
        let s3 = s4.drop_last();
        let s2 = s3.drop_last();
        let s1 = s2.drop_last();
        assert(s1.drop_last() == e0);
        assert(members_insert_all(e0, s1.drop_last()) == e0);
        assert(members_insert_all(e0, s1) == members_insert(e0, s1.last().0, s1.last().1));
        assert(members_insert_all(e0, s2) == members_insert(members_insert_all(e0, s1), s2.last().0, s2.last().1));
        assert(members_insert_all(e0, s3) == members_insert(members_insert_all(e0, s2), s3.last().0, s3.last().1));
        assert(members_insert_all(e0, s4) == members_insert(members_insert_all(e0, s3), s4.last().0, s4.last().1));
        assert(members_insert_all(e0, s5) == members_insert(members_insert_all(e0, s4), s5.last().0, s5.last().1));
        assert(ld == JsonTree::Array(ld->Array_0));
    }
    to_json_string(&o)
}

/// Parameters from a cookie header and a user agent alone (the platform
/// user id from the `tt_webid` cookie), as stored JSON text.
pub fn parse_credentials_from_cookie_string(cookie_string: &str, user_agent: &str) -> (r: String)
    ensures
        r@ == json_text(auth_params_json(cookie_string@, user_agent@,
            spec_extract_from_cookies(cookie_string@, "tt_webid"@), Seq::empty(), Seq::empty())),
{
    let third_id = extract_from_cookies(cookie_string, "tt_webid");
    let ld = JsonValue::Array(Vec::new());
    assert(trees(Seq::<JsonValue>::empty()) =~= Seq::<JsonTree>::empty());
    assert(ld@ == JsonTree::Array(Seq::empty()));
    proof { reveal_strlit(""); }
    assert(""@ == Seq::<char>::empty());
    assert(ld@->Array_0 == Seq::<JsonTree>::empty());
    params_text(cookie_string, user_agent, third_id.as_str(), "", ld)
}

/// A new random version 4 UUID, as text.
///
/// Trusted: random. Of the text, the shape is stated: 36 characters,
/// hyphens at 8, 13, 18 and 23, lowercase hexadecimal digits elsewhere,
/// the version digit `4` at 14 and a variant digit `8`, `9`, `a` or `b` at
/// 19; the random digits are not.
#[verifier::external_body]
pub(crate) fn new_uuid() -> (r: String)
    ensures
        r@.len() == 36,
        r@[8] == '-' && r@[13] == '-' && r@[18] == '-' && r@[23] == '-',
        r@[14] == '4',
        r@[19] == '8' || r@[19] == '9' || r@[19] == 'a' || r@[19] == 'b',
        forall|i: int| 0 <= i < 36 && i != 8 && i != 13 && i != 18 && i != 23
            ==> crate::douyin_utils::is_lower_hex(#[trigger] r@[i]),
{
    uuid::Uuid::new_v4().to_string()
}

impl DouyinAuthenticator {
    /// An idle authenticator.
    pub fn new() -> (r: Self)
        ensures
            r.auth_state == AuthState::Idle,
            r.login_url@ == login_url_text(),
            r.upload_url@ == upload_url_text(),
    {
        DouyinAuthenticator {
            auth_state: AuthState::Idle,
            login_url: String::from_str("https://creator.douyin.com/site/login"),
            upload_url: String::from_str("https://creator.douyin.com/creator-micro/content/post/video"),
        }
    }

    /// An idle authenticator for renewing existing credentials (which it
    /// does not keep).
    pub fn with_credentials(_credentials: CredentialsData) -> (r: Self)
        ensures
            r.auth_state == AuthState::Idle,
            r.login_url@ == login_url_text(),
            r.upload_url@ == upload_url_text(),
    {
        Self::new()
    }

    /// Starts the flow: waits for the login and returns the login page.
    pub fn start_auth_flow(&mut self) -> (r: Result<String, PlatformError>)
        ensures
            final(self).auth_state == AuthState::WaitingForLogin,
            final(self).login_url == old(self).login_url,
            final(self).upload_url == old(self).upload_url,
            r matches Ok(u) && u@ == old(self).login_url@,
    {
        self.auth_state = AuthState::WaitingForLogin;
        Ok(self.login_url.clone())
    }

    /// The state, with the request to log in in the browser.
    pub fn check_login_status(&self) -> (r: AuthResult)
        ensures
            r.account is None,
            r.state == self.auth_state,
            r.message@ == "请在浏览器中完成登录"@,
    {
        AuthResult {
            account: None,
            state: self.auth_state.copy(),
            message: String::from_str("请在浏览器中完成登录"),
        }
    }

    /// Completes the flow with the captured credentials: a new active
    /// Douyin account named by the nickname, whose parameters hold the
    /// cookie, the user agent, the `tt_webid` cookie as platform user id,
    /// the `sec_user_id` (else `sec_uid`) local storage entry, and the
    /// local storage entries as security SDK items.
    pub fn complete_auth(&mut self, credentials: CredentialsData) -> (r: Result<UserAccount, PlatformError>)
        ensures
            final(self).auth_state == AuthState::Completed,
            final(self).login_url == old(self).login_url,
            final(self).upload_url == old(self).upload_url,
            r matches Ok(a) && {
                &&& a.username == credentials.nickname
                &&& a.nickname == credentials.nickname
                &&& a.avatar_url == credentials.avatar_url
                &&& a.platform == PlatformType::Douyin
                &&& a.status == AccountStatus::Active
                &&& a.params@ == json_text(auth_params_json(credentials.cookie@, credentials.user_agent@,
                    spec_extract_from_cookies(credentials.cookie@, "tt_webid"@),
                    match spec_extract_from_localstorage(credentials.local_storage@, "sec_user_id"@) {
                        Some(s) => s,
                        None => match spec_extract_from_localstorage(credentials.local_storage@, "sec_uid"@) {
                            Some(s) => s,
                            None => Seq::empty(),
                        },
                    },
                    local_data_json(credentials.local_storage@)))
            },
    {
        self.auth_state = AuthState::ExtractingCredentials;
        let ld = local_data_value(credentials.local_storage.as_str());
        let third_id = extract_from_cookies(credentials.cookie.as_str(), "tt_webid");
        let sec_uid = match extract_from_localstorage(credentials.local_storage.as_str(), "sec_user_id") {
            Some(s) => s,
            None => match extract_from_localstorage(credentials.local_storage.as_str(), "sec_uid") {
                Some(s) => s,
                None => String::new(),
            },
        };
        let params = params_text(credentials.cookie.as_str(), credentials.user_agent.as_str(),
            third_id.as_str(), sec_uid.as_str(), ld);
        let account = UserAccount {
            id: new_uuid(),
            username: credentials.nickname.clone(),
            nickname: credentials.nickname,
            avatar_url: credentials.avatar_url,
            platform: PlatformType::Douyin,
            params,
            status: AccountStatus::Active,
            created_at: crate::crypto::local_now_formatted(),
        };
        self.auth_state = AuthState::Completed;
        Ok(account)
    }

    /// Cancels the flow.
    pub fn cancel_auth(&mut self)
        ensures
            final(self).auth_state == AuthState::Idle,
            final(self).login_url == old(self).login_url,
            final(self).upload_url == old(self).upload_url,
    {
        self.auth_state = AuthState::Idle;
    }

    /// The login page.
    pub fn get_login_url(&self) -> (r: String)
        ensures
            r == self.login_url,
    {
        self.login_url.clone()
    }

    /// The video upload page.
    pub fn get_upload_url(&self) -> (r: String)
        ensures
            r == self.upload_url,
    {
        self.upload_url.clone()
    }

    /// Renewing credentials needs a new login in the browser: the flow is
    /// restarted and the request to log in again is returned as an error.
    pub fn refresh(&mut self, _existing_account: UserAccount) -> (r: Result<UserAccount, PlatformError>)
        ensures
            final(self).auth_state == AuthState::WaitingForLogin,
            r matches Err(PlatformError::AuthenticationFailed(m)) && m@ == "请重新完成登录授权"@,
    {
        self.auth_state = AuthState::Idle;
        let _ = self.start_auth_flow();
        Err(PlatformError::AuthenticationFailed(String::from_str("请重新完成登录授权")))
    }

    /// Authenticating is done in the browser: the flow is started and the
    /// request to use the browser authorization is returned as an error.
    pub fn authenticate(&mut self) -> (r: Result<UserAccount, PlatformError>)
        ensures
            final(self).auth_state == AuthState::WaitingForLogin,
            r matches Err(PlatformError::AuthenticationFailed(m)) && m@ == "请使用frontend浏览器授权功能完成登录"@,
    {
        let _ = self.start_auth_flow();
        Err(PlatformError::AuthenticationFailed(String::from_str("请使用frontend浏览器授权功能完成登录")))
    }
}

} // verus!
