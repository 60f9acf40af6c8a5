//! Authorizing a Douyin account in a controlled browser: the steps of the
//! run and what each outcome of the browser work does to the result, how a
//! polled page is classified, and how the user, the cookie and the security
//! SDK items are read from what the page captured. The browser itself (the
//! process, the tab, the injected scripts, the waits) is driven by the
//! caller, which reports each outcome here.

use vstd::prelude::*;
use crate::chars::{str_contains, contains_seq, has_suffix, str_eq, chars_of, string_of, push_str, join_with};
use crate::json::{JsonValue, JsonTree, NumTree, parse_json, spec_parse_json, json_text, to_json_string};
use crate::browser::{BrowserAuthResult, BrowserAuthStep, is_initial_result};
use crate::extractor_engine::{LocalStorageItem, local_storage_json, local_storage_value};
use crate::comment_extractor::first_avatar;

verus! {

/// A Douyin authorization run in a controlled browser.
pub struct DouyinBrowser {
    pub result: BrowserAuthResult,
    /// The browser executable to use, if not the default one.
    pub chrome_path: Option<String>,
    /// How long to wait for the login, in seconds.
    pub timeout_seconds: u32,
    /// Whether the browser is open.
    pub session_open: bool,
}

/// The kind of page a polled run is on.
#[derive(PartialEq, Eq, Structural, Clone, Copy, Debug)]
pub enum PageKind {
    /// The creator center's home: extract after opening the upload page.
    Home,
    /// The upload page: extract.
    Upload,
    /// Another creator center page: go to the upload page.
    CreatorOther,
    /// Still the login page.
    Login,
}

/// The page kind of an address.
pub open spec fn page_kind(url: Seq<char>) -> PageKind {
    if contains_seq(url, "/creator-micro/home"@) || has_suffix(url, "/creator-micro/"@)
        || url == "https://creator.douyin.com/creator-micro"@ {
        PageKind::Home
    } else if contains_seq(url, "/content/upload"@) {
        PageKind::Upload
    } else if contains_seq(url, "creator.douyin.com/creator-micro"@) {
        PageKind::CreatorOther
    } else {
        PageKind::Login
    }
}

/// The user id, nickname and avatar read from the captured answers: the
/// user answer's `user.uid`, `user.nickname` and first avatar address; a
/// missing nickname is taken from the account answer's `display_name` (or
/// `nickname` when there is no `display_name`), and is `抖音用户` when still
/// missing.
pub open spec fn user_fields(user_info: Option<JsonTree>, account_info: Option<JsonTree>) -> (Seq<char>, Seq<char>, Seq<char>) {
    let user = match user_info { Some(t) => t.get("user"@), None => None };
    let uid = match user { Some(u) => u.str_or_empty("uid"@), None => Seq::empty() };
    let nick0 = match user { Some(u) => u.str_or_empty("nickname"@), None => Seq::empty() };
    let avatar = match user { Some(u) => first_avatar(u), None => Seq::empty() };
    let nick1 = if nick0.len() == 0 {
        match account_info {
            Some(a) => {
                let named = match a.get("display_name"@) { Some(x) => Some(x), None => a.get("nickname"@) };
                match named {
                    Some(x) => match x.as_str() { Some(s) => s, None => nick0 },
                    None => nick0,
                }
            },
            None => nick0,
        }
    } else {
        nick0
    };
    (uid, if nick1.len() == 0 { "抖音用户"@ } else { nick1 }, avatar)
}

/// The text of the string member `k`, or empty.
fn str_member(v: &JsonValue, k: &str) -> (r: String)
    ensures
        r@ == v@.str_or_empty(k@),
{
    v.str_or_empty(k)
}

fn first_avatar_of(u: &JsonValue) -> (r: String)
    ensures
        r@ == first_avatar(u@),
{
    match u.get("avatar_thumb") {
        Some(a) => match a.get("url_list") {
            Some(l) => match l.as_array() {
                Some(s) => {
                    proof { crate::json::lemma_trees_index(s@); }
                    if s.len() > 0 {
                        match s[0].as_str() { Some(x) => x.clone(), None => String::new() }
                    } else {
                        String::new()
                    }
                },
                None => String::new(),
            },
            None => String::new(),
        },
        None => String::new(),
    }
}

/// Reads the user id, nickname and avatar from the captured answers.
pub fn extract_user_info(user_info: &Option<JsonValue>, account_info: &Option<JsonValue>) -> (r: (String, String, String))
    ensures
        (r.0@, r.1@, r.2@) == user_fields(
            match user_info { Some(v) => Some(v@), None => None },
            match account_info { Some(v) => Some(v@), None => None }),
{
    let mut uid = String::new();
    let mut nickname = String::new();
    let mut avatar_url = String::new();
    match user_info {
        Some(t) => match t.get("user") {
            Some(u) => {
                uid = str_member(u, "uid");
                nickname = str_member(u, "nickname");
                avatar_url = first_avatar_of(u);
            },
            None => {},
        },
        None => {},
    }
    if nickname.as_str().is_empty() {
        match account_info {
            Some(a) => {
                let named = match a.get("display_name") {
                    Some(x) => Some(x),
                    None => a.get("nickname"),
                };
                match named {
                    Some(x) => match x.as_str() {
                        Some(s) => { nickname = s.clone(); },
                        None => {},
                    },
                    None => {},
                }
            },
            None => {},
        }
    }
    if nickname.as_str().is_empty() {
        nickname = String::from_str("抖音用户");
    }
    (uid, nickname, avatar_url)
}

/// The cookie header of the page's cookies: `name=value` joined by `; `.
pub open spec fn cookie_text(cookies: Seq<(Seq<char>, Seq<char>)>) -> Seq<char> {
    join_with(cookies.map_values(|c: (Seq<char>, Seq<char>)| c.0 + "="@ + c.1), "; "@)
}

/// The cookie header of the page's cookies (name and value each).
pub fn cookie_header(cookies: &Vec<(String, String)>) -> (r: String)
    ensures
        r@ == cookie_text(cookies@.map_values(|c: (String, String)| (c.0@, c.1@))),
{
    let ghost cs = cookies@.map_values(|c: (String, String)| (c.0@, c.1@));
    let ghost parts = cs.map_values(|c: (Seq<char>, Seq<char>)| c.0 + "="@ + c.1);
    let mut out: Vec<char> = Vec::new();
    let mut i: usize = 0;
    while i < cookies.len()
        invariant
            i <= cookies.len(),
            cs == cookies@.map_values(|c: (String, String)| (c.0@, c.1@)),
            parts == cs.map_values(|c: (Seq<char>, Seq<char>)| c.0 + "="@ + c.1),
            out@ == join_with(parts.subrange(0, i as int), "; "@),
        decreases cookies.len() - i,
    {
        proof {
            let q = parts.subrange(0, i + 1);
            assert(q.drop_last() == parts.subrange(0, i as int));
            assert(q.last() == cookies@[i as int].0@ + "="@ + cookies@[i as int].1@);
        }
        let ghost before = out@;
        if i > 0 {
            push_str(&mut out, "; ");
        }
        push_str(&mut out, cookies[i].0.as_str());
        push_str(&mut out, "=");
        push_str(&mut out, cookies[i].1.as_str());
        proof {
            if i == 0 {
                assert(parts.subrange(0, 1) =~= seq![parts[0]]);
                assert(out@ =~= parts[0]);
            } else {
                assert(out@ =~= before + "; "@ + parts[i as int]);
            }
        }
        i = i + 1;
    }
    assert(parts.subrange(0, cookies.len() as int) == parts);
    string_of(out.as_slice())
}

/// The security SDK keys read from the page's local storage, in order.
pub open spec fn local_storage_keys() -> Seq<Seq<char>> {
    seq![
        "security-sdk/s_sdk_cert_key"@,
        "security-sdk/s_sdk_crypt_sdk"@,
        "security-sdk/s_sdk_pri_key"@,
        "security-sdk/s_sdk_pub_key"@,
        "security-sdk/s_sdk_server_cert_key"@,
        "security-sdk/s_sdk_sign_data_key/token"@,
        "security-sdk/s_sdk_sign_data_key/web_protect"@,
    ]
}

/// The security SDK keys read from the page's local storage.
pub fn storage_keys() -> (r: Vec<String>)
    ensures
        r@.map_values(|k: String| k@) == local_storage_keys(),
{
    let mut v: Vec<String> = Vec::new();
    v.push(String::from_str("security-sdk/s_sdk_cert_key"));
    v.push(String::from_str("security-sdk/s_sdk_crypt_sdk"));
    v.push(String::from_str("security-sdk/s_sdk_pri_key"));
    v.push(String::from_str("security-sdk/s_sdk_pub_key"));
    v.push(String::from_str("security-sdk/s_sdk_server_cert_key"));
    v.push(String::from_str("security-sdk/s_sdk_sign_data_key/token"));
    v.push(String::from_str("security-sdk/s_sdk_sign_data_key/web_protect"));
    assert(v@.map_values(|k: String| k@) =~= local_storage_keys());
    v
}

/// Whether a stored item is kept: a certificate key only when its value
/// holds a public key (`pub.`); every other non-empty value.
pub open spec fn keeps_item(key: Seq<char>, value: Seq<char>) -> bool {
    value.len() > 0 && (contains_seq(key, "s_sdk_cert_key"@) ==> contains_seq(value, "pub."@))
}

/// Whether a stored item is kept.
pub fn keep_item(key: &str, value: &str) -> (r: bool)
    ensures
        r == keeps_item(key@, value@),
{
    !value.is_empty() && (!str_contains(key, "s_sdk_cert_key") || str_contains(value, "pub."))
}

/// The capture state reported by the page: how many answers were
/// captured, and whether the user and the account answers are there.
pub open spec fn capture_state(t: JsonTree) -> (u64, bool, bool) {
    let count = match t.get("count"@) { Some(JsonTree::Number(NumTree::PosInt(u))) => u, _ => 0 };
    let has_user = match t.get("hasUserInfo"@) { Some(JsonTree::Bool(b)) => b, _ => false };
    let has_account = match t.get("hasAccountInfo"@) { Some(JsonTree::Bool(b)) => b, _ => false };
    (count, has_user, has_account)
}

/// Whether the captured answers are enough: at least `expected` of them,
/// or both the user and the account answers.
pub open spec fn capture_ready(text: Seq<char>, expected: u32) -> bool {
    match spec_parse_json(text) {
        Ok(t) => {
            let (count, has_user, has_account) = capture_state(t);
            count >= expected || (has_user && has_account)
        },
        Err(_) => false,
    }
}

/// Whether the capture state the page reported (as JSON text) is enough.
pub fn api_data_ready(state_text: &str, expected: u32) -> (r: bool)
    ensures
        r == capture_ready(state_text@, expected),
{
    match parse_json(state_text) {
        Ok(v) => {
            let count: u64 = match v.get("count") { Some(JsonValue::Number(crate::json::JsonNumber::PosInt(u))) => *u, _ => 0 };
            let has_user = match v.get("hasUserInfo") { Some(JsonValue::Bool(b)) => *b, _ => false };
            let has_account = match v.get("hasAccountInfo") { Some(JsonValue::Bool(b)) => *b, _ => false };
            count >= expected as u64 || (has_user && has_account)
        },
        Err(_) => false,
    }
}

/// The captured user and account answers, from the page's report (as JSON
/// text): its `userInfo` and `accountInfo` members; nothing when the report
/// is not JSON.
pub fn api_data_from(report: &str) -> (r: (Option<JsonValue>, Option<JsonValue>))
    ensures
        match spec_parse_json(report@) {
            Ok(t) => (match r.0 { Some(v) => Some(v@), None => None }) == t.get("userInfo"@)
                && (match r.1 { Some(v) => Some(v@), None => None }) == t.get("accountInfo"@),
            Err(_) => r.0 is None && r.1 is None,
        },
{
    match parse_json(report) {
        Ok(v) => {
            let u = match v.get("userInfo") { Some(x) => Some(crate::json::copy_json(x)), None => None };
            let a = match v.get("accountInfo") { Some(x) => Some(crate::json::copy_json(x)), None => None };
            (u, a)
        },
        Err(_) => (None, None),
    }
}

/// Whether `new` is the run `old` moved to `step` with `message`: every
/// other field of the result, and the run's settings and session, are
/// left as they were.
pub open spec fn moved_to(old: DouyinBrowser, new: DouyinBrowser, step: BrowserAuthStep, message: Seq<char>) -> bool {
    &&& new.result == (BrowserAuthResult { step, message: new.result.message, ..old.result })
    &&& new.result.message@ == message
    &&& new.chrome_path == old.chrome_path
    &&& new.timeout_seconds == old.timeout_seconds
    &&& new.session_open == old.session_open
}

/// Whether `new` is the run `old` failed with `m`: the step, message and
/// error say so, and nothing else of the result or the settings changed.
pub open spec fn failed_with(old: DouyinBrowser, new: DouyinBrowser, m: String) -> bool {
    &&& new.result == (BrowserAuthResult { step: BrowserAuthStep::Failed(m), message: m, error: Some(m), ..old.result })
    &&& new.chrome_path == old.chrome_path
    &&& new.timeout_seconds == old.timeout_seconds
}

impl DouyinBrowser {
    /// A run with the default browser and a two minute login wait.
    pub fn new() -> (r: Self)
        ensures
            is_initial_result(r.result),
            r.chrome_path is None,
            r.timeout_seconds == 120,
            !r.session_open,
    {
        DouyinBrowser { result: BrowserAuthResult::default(), chrome_path: None, timeout_seconds: 120, session_open: false }
    }

    /// A run with the browser at `path`.
    pub fn with_chrome_path(path: String) -> (r: Self)
        ensures
            is_initial_result(r.result),
            r.chrome_path == Some(path),
            r.timeout_seconds == 120,
            !r.session_open,
    {
        DouyinBrowser { result: BrowserAuthResult::default(), chrome_path: Some(path), timeout_seconds: 120, session_open: false }
    }

    /// The run with another login wait.
    pub fn with_timeout(self, seconds: u32) -> (r: Self)
        ensures
            r == (DouyinBrowser { timeout_seconds: seconds, ..self }),
    {
        DouyinBrowser { timeout_seconds: seconds, ..self }
    }

    /// The run's result so far.
    pub fn get_result(&self) -> (r: &BrowserAuthResult)
        ensures
            *r == self.result,
    {
        &self.result
    }

    fn set_step(&mut self, step: BrowserAuthStep, message: &str)
        ensures
            final(self).result == (BrowserAuthResult { step, message: final(self).result.message, ..old(self).result }),
            final(self).result.message@ == message@,
            final(self).chrome_path == old(self).chrome_path,
            final(self).timeout_seconds == old(self).timeout_seconds,
            final(self).session_open == old(self).session_open,
    {
        self.result.step = step;
        self.result.message = String::from_str(message);
    }

    fn fail(&mut self, m: String)
        ensures
            final(self).result == (BrowserAuthResult { step: BrowserAuthStep::Failed(m), message: m,
                error: Some(m), ..old(self).result }),
            final(self).chrome_path == old(self).chrome_path,
            final(self).timeout_seconds == old(self).timeout_seconds,
            final(self).session_open == old(self).session_open,
    {
        self.result.step = BrowserAuthStep::Failed(m.clone());
        self.result.message = m.clone();
        self.result.error = Some(m);
    }

    /// The run starts: the browser is being launched.
    pub fn begin(&mut self)
        ensures
            moved_to(*old(self), *final(self), BrowserAuthStep::LaunchingBrowser, "正在启动浏览器..."@),
    {
        self.set_step(BrowserAuthStep::LaunchingBrowser, "正在启动浏览器...");
    }

    /// The browser was launched, or could not be (its reason): the run then
    /// fails with `无法启动浏览器: <reason>`, which is returned.
    pub fn launched(&mut self, outcome: Result<(), String>) -> (r: Result<(), String>)
        ensures
            match outcome {
                Ok(()) => r is Ok && *final(self) == (DouyinBrowser { session_open: true, ..*old(self) }),
                Err(e) => r matches Err(m) && m@ == "无法启动浏览器: "@ + e@
                    && failed_with(*old(self), *final(self), m) && final(self).session_open == old(self).session_open,
            },
    {
        match outcome {
            Ok(()) => {
                self.session_open = true;
                Ok(())
            },
            Err(e) => {
                let m = String::from_str("无法启动浏览器: ").concat(e.as_str());
                self.fail(m.clone());
                Err(m)
            },
        }
    }

    /// The login page is being opened.
    pub fn opening_login_page(&mut self)
        ensures
            moved_to(*old(self), *final(self), BrowserAuthStep::OpeningLoginPage, "正在打开创作者中心..."@),
    {
        self.set_step(BrowserAuthStep::OpeningLoginPage, "正在打开创作者中心...");
    }

    /// The run waits for the user to log in.
    pub fn waiting_for_login(&mut self)
        ensures
            moved_to(*old(self), *final(self), BrowserAuthStep::WaitingForLogin, "请扫码登录..."@),
    {
        self.set_step(BrowserAuthStep::WaitingForLogin, "请扫码登录...");
    }

    /// The wait for the home page ended (`reached`: it was reached in time;
    /// `url_after`: the address then; `current_url`: the address read next).
    /// When it was not reached and the page is not in the creator center,
    /// the run fails with `等待登录超时，请确保扫码登录` and the browser closes;
    /// otherwise the login is detected on `current_url`.
    pub fn login_wait_done(&mut self, reached: bool, url_after: &str, current_url: &str) -> (r: Result<(), String>)
        ensures
            (!reached && !contains_seq(url_after@, "creator.douyin.com/creator-micro"@)) ==> (r matches Err(m)
                && m@ == "等待登录超时，请确保扫码登录"@ && failed_with(*old(self), *final(self), m)
                && !final(self).session_open),
            (reached || contains_seq(url_after@, "creator.douyin.com/creator-micro"@)) ==> (r is Ok
                && final(self).result.current_url@ == current_url@
                && moved_to(DouyinBrowser { result: BrowserAuthResult { current_url: final(self).result.current_url,
                    ..old(self).result }, ..*old(self) }, *final(self), BrowserAuthStep::LoginDetected,
                    "登录成功，正在准备提取数据..."@)),
    {
        if !reached && !str_contains(url_after, "creator.douyin.com/creator-micro") {
            let m = String::from_str("等待登录超时，请确保扫码登录");
            self.fail(m.clone());
            self.session_open = false;
            return Err(m);
        }
        self.result.current_url = String::from_str(current_url);
        self.set_step(BrowserAuthStep::LoginDetected, "登录成功，正在准备提取数据...");
        Ok(())
    }

    /// The upload page is being opened to make the page call the user APIs.
    pub fn navigating_to_upload(&mut self)
        ensures
            moved_to(*old(self), *final(self), BrowserAuthStep::NavigatingToUpload, "正在跳转到上传页面以获取API数据..."@),
    {
        self.set_step(BrowserAuthStep::NavigatingToUpload, "正在跳转到上传页面以获取API数据...");
    }

    /// The user data is being extracted.
    pub fn extracting(&mut self)
        ensures
            moved_to(*old(self), *final(self), BrowserAuthStep::ExtractingCredentials, "正在提取用户数据..."@),
    {
        self.set_step(BrowserAuthStep::ExtractingCredentials, "正在提取用户数据...");
    }

    /// The run completes with what the page gave: the captured answers, the
    /// cookie, and the kept security SDK items. The result carries the
    /// cookie, the items as JSON text, the nickname and avatar; the browser
    /// closes; the result is returned.
    pub fn complete(&mut self, user_info: &Option<JsonValue>, account_info: &Option<JsonValue>, cookie: String,
        items: &Vec<LocalStorageItem>) -> (r: BrowserAuthResult)
        ensures
            ({
                let f = user_fields(match user_info { Some(v) => Some(v@), None => None },
                    match account_info { Some(v) => Some(v@), None => None });
                &&& final(self).result == (BrowserAuthResult { step: BrowserAuthStep::Completed,
                    message: final(self).result.message, cookie, local_storage: final(self).result.local_storage,
                    nickname: final(self).result.nickname, avatar_url: final(self).result.avatar_url,
                    need_poll: false, ..old(self).result })
                &&& final(self).result.message@ == "授权完成！账号: "@ + f.1
                &&& final(self).result.local_storage@ == json_text(local_storage_json(items@))
                &&& final(self).result.nickname@ == f.1
                &&& final(self).result.avatar_url@ == f.2
                &&& !final(self).session_open
                &&& final(self).chrome_path == old(self).chrome_path
                &&& final(self).timeout_seconds == old(self).timeout_seconds
                &&& r == final(self).result
            }),
    {
        let (_uid, nickname, avatar_url) = extract_user_info(user_info, account_info);
        let ls = local_storage_value(items);
        self.result.cookie = cookie;
        self.result.local_storage = to_json_string(&ls);
        self.result.message = String::from_str("授权完成！账号: ").concat(nickname.as_str());
        self.result.nickname = nickname;
        self.result.avatar_url = avatar_url;
        self.result.step = BrowserAuthStep::Completed;
        self.result.need_poll = false;
        self.session_open = false;
        self.result.copy()
    }

    /// A poll of the run, on the page at `current_url`: the address is
    /// kept, and the page's kind returned. On another creator center page
    /// the run goes to the upload page; on the login page it keeps waiting.
    pub fn polled(&mut self, current_url: &str) -> (r: PageKind)
        ensures
            r == page_kind(current_url@),
            final(self).result.current_url@ == current_url@,
            final(self).session_open == old(self).session_open,
            final(self).chrome_path == old(self).chrome_path,
            final(self).timeout_seconds == old(self).timeout_seconds,
            r == PageKind::CreatorOther ==> moved_to(DouyinBrowser { result: BrowserAuthResult {
                current_url: final(self).result.current_url, ..old(self).result }, ..*old(self) }, *final(self),
                BrowserAuthStep::NavigatingToUpload, "正在跳转到上传页面..."@),
            r == PageKind::Login ==> moved_to(DouyinBrowser { result: BrowserAuthResult {
                current_url: final(self).result.current_url, ..old(self).result }, ..*old(self) }, *final(self),
                BrowserAuthStep::WaitingForLogin, "请扫码登录..."@),
            (r == PageKind::Home || r == PageKind::Upload) ==> final(self).result
                == (BrowserAuthResult { current_url: final(self).result.current_url, ..old(self).result }),
    {
        self.result.current_url = String::from_str(current_url);
        let home = str_contains(current_url, "/creator-micro/home") || ends_with(current_url, "/creator-micro/")
            || str_eq(current_url, "https://creator.douyin.com/creator-micro");
        if home {
            PageKind::Home
        } else if str_contains(current_url, "/content/upload") {
            PageKind::Upload
        } else if str_contains(current_url, "creator.douyin.com/creator-micro") {
            self.set_step(BrowserAuthStep::NavigatingToUpload, "正在跳转到上传页面...");
            PageKind::CreatorOther
        } else {
            self.set_step(BrowserAuthStep::WaitingForLogin, "请扫码登录...");
            PageKind::Login
        }
    }

    /// Whether to poll again after a poll on a page of kind `k` (no more
    /// once the data was extracted, or when there is no page).
    pub fn poll_again(k: Option<PageKind>) -> (r: bool)
        ensures
            r == (k == Some(PageKind::CreatorOther) || k == Some(PageKind::Login)),
    {
        match k {
            Some(PageKind::CreatorOther) => true,
            Some(PageKind::Login) => true,
            _ => false,
        }
    }

    /// The run is cancelled: the browser closes and the run is idle again.
    pub fn cancel(&mut self)
        ensures
            !final(self).session_open,
            final(self).result == (BrowserAuthResult { step: BrowserAuthStep::Idle, message: final(self).result.message,
                need_poll: false, ..old(self).result }),
            final(self).result.message@ == "已取消授权"@,
            final(self).chrome_path == old(self).chrome_path,
            final(self).timeout_seconds == old(self).timeout_seconds,
    {
        self.session_open = false;
        self.set_step(BrowserAuthStep::Idle, "已取消授权");
        self.result.need_poll = false;
    }
}

fn ends_with(s: &str, p: &str) -> (r: bool)
    ensures
        r == has_suffix(s@, p@),
{
    let a = chars_of(s);
    let b = chars_of(p);
    if b.len() > a.len() {
        return false;
    }
    crate::chars::matches_at(a.as_slice(), b.as_slice(), a.len() - b.len())
}

} // verus!
