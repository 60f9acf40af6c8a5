//! Browser based authorization: the steps of an authorization run, its
//! result, the automator that keeps the result between polls, the generic
//! rule driven browser (its directories, the framing of the result printed
//! by its script and the reading of that result), and the Playwright
//! environment check.

use vstd::prelude::*;
use std::sync::Arc;
use crate::chars::{chars_of, string_of, push_str, push_chars, has_prefix, join_with};
use crate::json::{JsonValue, JsonTree, json_text, parse_json, spec_parse_json, to_json_string,
    empty_object, obj_set, members_insert, jstr};
use crate::model::DatabaseManager;
use crate::extractor_engine::ExtractorConfig;

verus! {

// ---------------------------------------------------------------------------
// Steps and results
// ---------------------------------------------------------------------------

/// The step an authorization run is at.
pub enum BrowserAuthStep {
    Idle,
    LaunchingBrowser,
    OpeningLoginPage,
    WaitingForLogin,
    LoginDetected,
    NavigatingToUpload,
    WaitingForUpload,
    ExtractingCredentials,
    ClosingBrowser,
    Completed,
    Failed(String),
}

/// The name of a step; a failure shows its reason in brackets.
pub open spec fn step_text(s: BrowserAuthStep) -> Seq<char> {
    match s {
        BrowserAuthStep::Idle => "Idle"@,
        BrowserAuthStep::LaunchingBrowser => "LaunchingBrowser"@,
        BrowserAuthStep::OpeningLoginPage => "OpeningLoginPage"@,
        BrowserAuthStep::WaitingForLogin => "WaitingForLogin"@,
        BrowserAuthStep::LoginDetected => "LoginDetected"@,
        BrowserAuthStep::NavigatingToUpload => "NavigatingToUpload"@,
        BrowserAuthStep::WaitingForUpload => "WaitingForUpload"@,
        BrowserAuthStep::ExtractingCredentials => "ExtractingCredentials"@,
        BrowserAuthStep::ClosingBrowser => "ClosingBrowser"@,
        BrowserAuthStep::Completed => "Completed"@,
        BrowserAuthStep::Failed(m) => "Failed("@ + m@ + ")"@,
    }
}

/// What `format!("{:?}", s)` writes for the string `s`: the string quoted,
/// with the characters Rust's debug format escapes escaped.
pub uninterp spec fn spec_debug_str(s: Seq<char>) -> Seq<char>;

/// Renders `s` with the debug format (`{:?}`).
///
/// Trusted: the text is taken to be a function of `s` alone, named
/// `spec_debug_str`; the escaping rules are not restated.
#[verifier::external_body]
fn debug_str(s: &str) -> (r: String)
    ensures
        r@ == spec_debug_str(s@),
{
    format!("{:?}", s)
}

/// The debug rendering of a step: the variant's name, and for a failure
/// its reason in debug form in brackets.
pub open spec fn step_debug_text(s: BrowserAuthStep) -> Seq<char> {
    match s {
        BrowserAuthStep::Failed(m) => "Failed("@ + spec_debug_str(m@) + ")"@,
        _ => step_text(s),
    }
}

impl BrowserAuthStep {
    /// The name of the step (a failure with its reason).
    pub fn to_string(&self) -> (r: String)
        ensures
            r@ == step_text(*self),
    {
        match self {
            BrowserAuthStep::Idle => String::from_str("Idle"),
            BrowserAuthStep::LaunchingBrowser => String::from_str("LaunchingBrowser"),
            BrowserAuthStep::OpeningLoginPage => String::from_str("OpeningLoginPage"),
            BrowserAuthStep::WaitingForLogin => String::from_str("WaitingForLogin"),
            BrowserAuthStep::LoginDetected => String::from_str("LoginDetected"),
            BrowserAuthStep::NavigatingToUpload => String::from_str("NavigatingToUpload"),
            BrowserAuthStep::WaitingForUpload => String::from_str("WaitingForUpload"),
            BrowserAuthStep::ExtractingCredentials => String::from_str("ExtractingCredentials"),
            BrowserAuthStep::ClosingBrowser => String::from_str("ClosingBrowser"),
            BrowserAuthStep::Completed => String::from_str("Completed"),
            BrowserAuthStep::Failed(m) => String::from_str("Failed(").concat(m.as_str()).concat(")"),
        }
    }

    /// The debug rendering of the step.
    pub fn to_debug_string(&self) -> (r: String)
        ensures
            r@ == step_debug_text(*self),
    {
        match self {
            BrowserAuthStep::Failed(m) => {
                let d = debug_str(m.as_str());
                String::from_str("Failed(").concat(d.as_str()).concat(")")
            },
            _ => self.to_string(),
        }
    }

    /// A copy of the step.
    pub fn copy(&self) -> (r: Self)
        ensures
            r == *self,
    {
        match self {
            BrowserAuthStep::Idle => BrowserAuthStep::Idle,
            BrowserAuthStep::LaunchingBrowser => BrowserAuthStep::LaunchingBrowser,
            BrowserAuthStep::OpeningLoginPage => BrowserAuthStep::OpeningLoginPage,
            BrowserAuthStep::WaitingForLogin => BrowserAuthStep::WaitingForLogin,
            BrowserAuthStep::LoginDetected => BrowserAuthStep::LoginDetected,
            BrowserAuthStep::NavigatingToUpload => BrowserAuthStep::NavigatingToUpload,
            BrowserAuthStep::WaitingForUpload => BrowserAuthStep::WaitingForUpload,
            BrowserAuthStep::ExtractingCredentials => BrowserAuthStep::ExtractingCredentials,
            BrowserAuthStep::ClosingBrowser => BrowserAuthStep::ClosingBrowser,
            BrowserAuthStep::Completed => BrowserAuthStep::Completed,
            BrowserAuthStep::Failed(m) => BrowserAuthStep::Failed(m.clone()),
        }
    }

    /// Whether the run completed.
    pub fn is_completed(&self) -> (r: bool)
        ensures
            r == (*self is Completed),
    {
        match self {
            BrowserAuthStep::Completed => true,
            _ => false,
        }
    }
}

/// The state and outcome of an authorization run.
pub struct BrowserAuthResult {
    pub step: BrowserAuthStep,
    pub current_url: String,
    pub message: String,
    pub cookie: String,
    pub local_storage: String,
    pub nickname: String,
    pub avatar_url: String,
    pub third_id: String,
    pub sec_uid: String,
    pub error: Option<String>,
    pub screenshot: Option<String>,
    pub need_poll: bool,
    /// The captured request headers, a JSON text, used when publishing.
    pub request_headers: String,
}

/// Whether `r` is the result before any run: idle, with the message
/// `准备开始授权` and everything else empty.
pub open spec fn is_initial_result(r: BrowserAuthResult) -> bool {
    &&& r.step == BrowserAuthStep::Idle
    &&& r.current_url@.len() == 0
    &&& r.message@ == "准备开始授权"@
    &&& r.cookie@.len() == 0
    &&& r.local_storage@.len() == 0
    &&& r.nickname@.len() == 0
    &&& r.avatar_url@.len() == 0
    &&& r.third_id@.len() == 0
    &&& r.sec_uid@.len() == 0
    &&& r.error is None
    &&& r.screenshot is None
    &&& !r.need_poll
    &&& r.request_headers@.len() == 0
}

impl Default for BrowserAuthResult {
    fn default() -> (r: Self)
        ensures
            is_initial_result(r),
    {
        BrowserAuthResult {
            step: BrowserAuthStep::Idle,
            current_url: String::new(),
            message: String::from_str("准备开始授权"),
            cookie: String::new(),
            local_storage: String::new(),
            nickname: String::new(),
            avatar_url: String::new(),
            third_id: String::new(),
            sec_uid: String::new(),
            error: None,
            screenshot: None,
            need_poll: false,
            request_headers: String::new(),
        }
    }
}

impl BrowserAuthResult {
    /// A copy of the result.
    pub fn copy(&self) -> (r: Self)
        ensures
            r == *self,
    {
        BrowserAuthResult {
            step: self.step.copy(),
            current_url: self.current_url.clone(),
            message: self.message.clone(),
            cookie: self.cookie.clone(),
            local_storage: self.local_storage.clone(),
            nickname: self.nickname.clone(),
            avatar_url: self.avatar_url.clone(),
            third_id: self.third_id.clone(),
            sec_uid: self.sec_uid.clone(),
            error: crate::model::copy_opt(&self.error),
            screenshot: crate::model::copy_opt(&self.screenshot),
            need_poll: self.need_poll,
            request_headers: self.request_headers.clone(),
        }
    }
}

/// `r` after a failure with the reason `e`: the step and the message say
/// so and the error is set; the rest is kept.
pub open spec fn failed_with(old_r: BrowserAuthResult, r: BrowserAuthResult, e: Seq<char>) -> bool {
    &&& r.step matches BrowserAuthStep::Failed(m) && m@ == e
    &&& r.message@ == e
    &&& r.error matches Some(x) && x@ == e
    &&& r == BrowserAuthResult { step: r.step, message: r.message, error: r.error, ..old_r }
}

/// `r` after a cancellation: idle, with the message `已取消授权` and no
/// polling; the rest is kept.
pub open spec fn cancelled(old_r: BrowserAuthResult, r: BrowserAuthResult) -> bool {
    &&& r.step == BrowserAuthStep::Idle
    &&& r.message@ == "已取消授权"@
    &&& !r.need_poll
    &&& r == BrowserAuthResult { step: r.step, message: r.message, need_poll: r.need_poll, ..old_r }
}

/// Records a failure in `r`.
fn record_failure(r: &mut BrowserAuthResult, e: String)
    ensures
        failed_with(*old(r), *final(r), e@),
{
    r.step = BrowserAuthStep::Failed(e.clone());
    r.message = e.clone();
    r.error = Some(e);
}

/// Records a cancellation in `r`.
fn record_cancel(r: &mut BrowserAuthResult)
    ensures
        cancelled(*old(r), *final(r)),
{
    r.step = BrowserAuthStep::Idle;
    r.message = String::from_str("已取消授权");
    r.need_poll = false;
}

// ---------------------------------------------------------------------------
// Directories
// ---------------------------------------------------------------------------

/// The Playwright directory under the home directory `home` (`.` when the
/// home directory is unknown).
pub open spec fn playwright_dir(home: Option<Seq<char>>) -> Seq<char> {
    let h = match home { Some(h) => h, None => "."@ };
    crate::model::path_join(crate::model::path_join(crate::model::path_join(crate::model::path_join(
        h, "Library"@), "Application Support"@), "com.yzg.matrix"@), "playwright"@)
}

/// `base` joined with `name` (see `path_join`).
fn join(base: String, name: &str) -> (r: String)
    ensures
        r@ == crate::model::path_join(base@, name@),
{
    let b = chars_of(base.as_str());
    proof { reveal_strlit("/"); }
    if b.len() == 0 {
        String::from_str(name)
    } else if b[b.len() - 1] == '/' {
        base.concat(name)
    } else {
        base.concat("/").concat(name)
    }
}

/// The Playwright directory for the home directory `home`.
pub fn get_playwright_dir(home: Option<String>) -> (r: String)
    ensures
        r@ == playwright_dir(crate::model::opt_str(home)),
{
    let h = match home {
        Some(h) => h,
        None => String::from_str("."),
    };
    join(join(join(join(h, "Library"), "Application Support"), "com.yzg.matrix"), "playwright")
}

/// The browsers directory: `browsers` in the Playwright directory.
pub fn get_browsers_dir(home: Option<String>) -> (r: String)
    ensures
        r@ == crate::model::path_join(playwright_dir(crate::model::opt_str(home)), "browsers"@),
{
    join(get_playwright_dir(home), "browsers")
}

/// Whether an entry of the browsers directory is an installed Chromium: a
/// directory whose name begins with `chromium-`.
pub open spec fn is_chromium_entry(e: (bool, Seq<char>)) -> bool {
    e.0 && has_prefix(e.1, "chromium-"@)
}

/// What the environment check reports: whether installation is needed,
/// first of the Playwright package (it is not installed), then of Chromium
/// (the browsers directory is missing, cannot be listed, or holds no
/// Chromium directory).
pub open spec fn spec_playwright_env(package_installed: bool, browsers_dir_exists: bool,
    entries: Option<Seq<(bool, Seq<char>)>>) -> (bool, bool) {
    (!package_installed, !(browsers_dir_exists && match entries {
        Some(es) => has_chromium(es),
        None => false,
    }))
}

/// Whether some entry is an installed Chromium.
pub open spec fn has_chromium(es: Seq<(bool, Seq<char>)>) -> bool {
    exists|i: int| 0 <= i < es.len() && is_chromium_entry(#[trigger] es[i])
}

/// The entries as (is a directory, name) pairs of texts.
pub open spec fn entries_view(es: Seq<(bool, String)>) -> Seq<(bool, Seq<char>)> {
    es.map_values(|e: (bool, String)| (e.0, e.1@))
}

/// Checks whether the Playwright environment needs installing, from what
/// the file system shows: the package directory's existence, the browsers
/// directory's existence, and its entries (each whether it is a directory,
/// and its name) when it could be listed. The first answer is whether the
/// package must be installed, the second whether Chromium must be.
pub fn check_playwright_env(package_installed: bool, browsers_dir_exists: bool,
    entries: Option<Vec<(bool, String)>>) -> (r: (bool, bool))
    ensures
        r == spec_playwright_env(package_installed, browsers_dir_exists, match entries {
            Some(es) => Some(entries_view(es@)),
            None => None,
        }),
{
    if !browsers_dir_exists {
        return (!package_installed, true);
    }
    match entries {
        None => (!package_installed, true),
        Some(es) => {
            let ghost ev = entries_view(es@);
            let mut i: usize = 0;
            while i < es.len()
                invariant
                    i <= es.len(),
                    browsers_dir_exists,
                    entries == Some(es),
                    ev == entries_view(es@),
                    forall|j: int| 0 <= j < i ==> !is_chromium_entry(#[trigger] ev[j]),
                decreases es.len() - i,
            {
                let name = chars_of(es[i].1.as_str());
                assert(ev[i as int] == (es@[i as int].0, es@[i as int].1@));
                if es[i].0 && crate::chars::starts_with_lit(name.as_slice(), "chromium-") {
                    assert(is_chromium_entry(ev[i as int]));
                    assert(has_chromium(ev));
                    return (!package_installed, false);
                }
                i = i + 1;
            }
            (!package_installed, true)
        },
    }
}

// ---------------------------------------------------------------------------
// The result printed by the script
// ---------------------------------------------------------------------------

/// Collects the result lines that the script prints between a
/// `RESULT_JSON_START` line and a `RESULT_JSON_END` line; a later start
/// line begins the collection again, and the end line closes it.
pub struct ResultCollector {
    pub lines: Vec<String>,
    pub in_result: bool,
    pub done: bool,
}

/// The collector's state after the lines `ls`, from the state `(lines,
/// in_result, done)`.
pub open spec fn collect(ls: Seq<Seq<char>>, lines: Seq<Seq<char>>, in_result: bool, done: bool) -> (Seq<Seq<char>>, bool, bool)
    decreases ls.len(),
{
    if ls.len() == 0 {
        (lines, in_result, done)
    } else {
        let (l2, i2, d2) = collect(ls.drop_last(), lines, in_result, done);
        let line = ls.last();
        if d2 {
            (l2, i2, d2)
        } else if line == "RESULT_JSON_START"@ {
            (Seq::empty(), true, false)
        } else if line == "RESULT_JSON_END"@ {
            (l2, i2, true)
        } else if i2 {
            (l2.push(line), i2, false)
        } else {
            (l2, i2, false)
        }
    }
}

impl ResultCollector {
    /// A collector that has seen no line.
    pub fn new() -> (r: Self)
        ensures
            r.lines@.len() == 0,
            !r.in_result,
            !r.done,
    {
        ResultCollector { lines: Vec::new(), in_result: false, done: false }
    }

    /// Takes the next line; lines after the end line are ignored.
    pub fn feed(&mut self, line: &str)
        ensures
            crate::model::strs(final(self).lines@) == collect(seq![line@],
                crate::model::strs(old(self).lines@), old(self).in_result, old(self).done).0,
            final(self).in_result == collect(seq![line@],
                crate::model::strs(old(self).lines@), old(self).in_result, old(self).done).1,
            final(self).done == collect(seq![line@],
                crate::model::strs(old(self).lines@), old(self).in_result, old(self).done).2,
    {
        let ghost ls = seq![line@];
        let ghost l0 = crate::model::strs(self.lines@);
        assert(ls.drop_last() == Seq::<Seq<char>>::empty());
        assert(ls.last() == line@);
        assert(collect(Seq::<Seq<char>>::empty(), l0, self.in_result, self.done) == (l0, self.in_result, self.done));
        let c = chars_of(line);
        if self.done {
            return;
        }
        if crate::chars::chars_eq(c.as_slice(), chars_of("RESULT_JSON_START").as_slice()) {
            self.in_result = true;
            self.lines = Vec::new();
            assert(crate::model::strs(self.lines@) == Seq::<Seq<char>>::empty());
        } else if crate::chars::chars_eq(c.as_slice(), chars_of("RESULT_JSON_END").as_slice()) {
            self.done = true;
        } else if self.in_result {
            let ghost before = self.lines@;
            self.lines.push(String::from_str(line));
            assert(crate::model::strs(self.lines@) == crate::model::strs(before).push(line@));
        }
    }

    /// The collected text: the result lines joined by newlines.
    pub fn text(&self) -> (r: String)
        ensures
            r@ == join_with(crate::model::strs(self.lines@), seq!['\n']),
    {
        let mut items: Vec<Vec<char>> = Vec::new();
        let mut i: usize = 0;
        while i < self.lines.len()
            invariant
                i <= self.lines.len(),
                items@.map_values(|x: Vec<char>| x@) == crate::model::strs(self.lines@).subrange(0, i as int),
            decreases self.lines.len() - i,
        {
            let ghost before = items@.map_values(|x: Vec<char>| x@);
            items.push(chars_of(self.lines[i].as_str()));
            assert(items@.map_values(|x: Vec<char>| x@) == before.push(self.lines@[i as int]@));
            i = i + 1;
        }
        assert(crate::model::strs(self.lines@).subrange(0, self.lines@.len() as int) == crate::model::strs(self.lines@));
        let sep: Vec<char> = vec!['\n'];
        assert(sep@ == seq!['\n']);
        let j = crate::chars::join_chars(&items, sep.as_slice());
        string_of(j.as_slice())
    }
}

/// The debug rendering of an optional exit code (`Some(1)`, `None`).
pub open spec fn exit_code_text(code: Option<i32>) -> Seq<char> {
    match code {
        Some(c) => "Some("@ + crate::numfmt::dec_int(c as int) + ")"@,
        None => "None"@,
    }
}

/// The error of a script that exited unsuccessfully.
pub fn exit_failure_message(code: Option<i32>) -> (r: String)
    ensures
        r@ == "脚本执行失败, 退出码: "@ + exit_code_text(code),
{
    let mut out: Vec<char> = Vec::new();
    push_str(&mut out, "脚本执行失败, 退出码: ");
    match code {
        Some(c) => {
            push_str(&mut out, "Some(");
            crate::numfmt::push_dec_i64(&mut out, c as i64);
            push_str(&mut out, ")");
        },
        None => {
            push_str(&mut out, "None");
        },
    }
    string_of(out.as_slice())
}

/// The text of the string member `key` of the object member `outer`, or
/// the empty text.
pub open spec fn inner_str(t: JsonTree, outer: Seq<char>, key: Seq<char>) -> Seq<char> {
    match t.get(outer) {
        Some(u) => u.str_or_empty(key),
        None => Seq::empty(),
    }
}

/// The compact text of member `key`, or `default` when it is missing.
pub open spec fn member_text_or(t: JsonTree, key: Seq<char>, default: Seq<char>) -> Seq<char> {
    match t.get(key) {
        Some(v) => json_text(v),
        None => default,
    }
}

/// The text of the string member `key`, or `default`.
pub open spec fn str_or(t: JsonTree, key: Seq<char>, default: Seq<char>) -> Seq<char> {
    match t.get_str(key) {
        Some(s) => s,
        None => default,
    }
}

/// Whether `s` is the step the script's result object `t` reports: from
/// `step` (`completed`, `failed` with the message as reason, another text
/// an unknown state; idle when missing).
pub open spec fn step_from_json(t: JsonTree, s: BrowserAuthStep) -> bool {
    match t.get_str("step"@) {
        Some(x) => if x == "completed"@ {
            s is Completed
        } else if x == "failed"@ {
            s matches BrowserAuthStep::Failed(m) && m@ == str_or(t, "message"@, "未知错误"@)
        } else {
            s matches BrowserAuthStep::Failed(m) && m@ == "未知状态"@
        },
        None => s is Idle,
    }
}

/// Whether `r` is what the script's result object `t` says: the step from
/// `step` (`completed`, `failed` with the message as reason, another text
/// an unknown state; idle when missing), the message (`完成` by default),
/// the URL, the four user fields from `user_info`, the cookie, and the
/// compact texts of `local_storage` (`[]` by default) and `request_headers`
/// (`{}` by default); nothing to poll.
pub open spec fn result_from_json(t: JsonTree, r: BrowserAuthResult) -> bool {
    &&& step_from_json(t, r.step)
    &&& r.message@ == str_or(t, "message"@, "完成"@)
    &&& r.current_url@ == t.str_or_empty("url"@)
    &&& r.nickname@ == inner_str(t, "user_info"@, "nickname"@)
    &&& r.avatar_url@ == inner_str(t, "user_info"@, "avatar_url"@)
    &&& r.third_id@ == inner_str(t, "user_info"@, "third_id"@)
    &&& r.sec_uid@ == inner_str(t, "user_info"@, "sec_uid"@)
    &&& r.cookie@ == t.str_or_empty("cookie"@)
    &&& r.local_storage@ == member_text_or(t, "local_storage"@, "[]"@)
    &&& r.request_headers@ == member_text_or(t, "request_headers"@, "{}"@)
    &&& !r.need_poll
    &&& r.error is None
    &&& r.screenshot is None
}

/// The text of the string member `key`, or `default`.
fn get_str_or(v: &JsonValue, key: &str, default: &str) -> (r: String)
    ensures
        r@ == str_or(v@, key@, default@),
{
    match v.get_str(key) {
        Some(s) => s,
        None => String::from_str(default),
    }
}

/// The compact text of member `key`, or `default`.
fn member_text(v: &JsonValue, key: &str, default: &str) -> (r: String)
    ensures
        r@ == member_text_or(v@, key@, default@),
{
    match v.get(key) {
        Some(x) => to_json_string(x),
        None => String::from_str(default),
    }
}

/// The text of the string member `key` of the member `outer`.
fn inner_get(v: &JsonValue, outer: &str, key: &str) -> (r: String)
    ensures
        r@ == inner_str(v@, outer@, key@),
{
    match v.get(outer) {
        Some(u) => u.str_or_empty(key),
        None => String::new(),
    }
}

/// The step a parsed result object reports.
fn step_from_value(v: &JsonValue) -> (r: BrowserAuthStep)
    ensures
        step_from_json(v@, r),
{
    match v.get_str("step") {
        Some(s) => {
            let c = chars_of(s.as_str());
            if crate::chars::chars_eq(c.as_slice(), chars_of("completed").as_slice()) {
                BrowserAuthStep::Completed
            } else if crate::chars::chars_eq(c.as_slice(), chars_of("failed").as_slice()) {
                BrowserAuthStep::Failed(get_str_or(v, "message", "未知错误"))
            } else {
                BrowserAuthStep::Failed(String::from_str("未知状态"))
            }
        },
        None => BrowserAuthStep::Idle,
    }
}

/// The result that a parsed result object holds.
pub fn result_from_value(v: &JsonValue) -> (r: BrowserAuthResult)
    ensures
        result_from_json(v@, r),
{
    let step = step_from_value(v);
    BrowserAuthResult {
        step,
        current_url: v.str_or_empty("url"),
        message: get_str_or(v, "message", "完成"),
        cookie: v.str_or_empty("cookie"),
        local_storage: member_text(v, "local_storage", "[]"),
        nickname: inner_get(v, "user_info", "nickname"),
        avatar_url: inner_get(v, "user_info", "avatar_url"),
        third_id: inner_get(v, "user_info", "third_id"),
        sec_uid: inner_get(v, "user_info", "sec_uid"),
        error: None,
        screenshot: None,
        need_poll: false,
        request_headers: member_text(v, "request_headers", "{}"),
    }
}

/// What reading the script's result text gives: the result when the text
/// is a result object of a completed run; the message when the run did not
/// complete; `解析结果失败: ` and the JSON error when the text is not JSON.
pub open spec fn parse_result_ok(text: Seq<char>, r: Result<BrowserAuthResult, String>) -> bool {
    match spec_parse_json(text) {
        Ok(t) => match r {
            Ok(res) => result_from_json(t, res) && t.get_str("step"@) == Some("completed"@),
            Err(m) => exists|res: BrowserAuthResult| result_from_json(t, res) && !(res.step is Completed)
                && m@ == res.message@,
        },
        Err(e) => r matches Err(m) && m@ == "解析结果失败: "@ + e,
    }
}

/// Reads the script's result text.
pub fn parse_result(content: &str) -> (r: Result<BrowserAuthResult, String>)
    ensures
        parse_result_ok(content@, r),
{
    match parse_json(content) {
        Ok(v) => {
            let res = result_from_value(&v);
            proof { reveal_strlit("completed"); }
            if res.step.is_completed() {
                Ok(res)
            } else {
                let m = res.message.clone();
                Err(m)
            }
        },
        Err(e) => Err(String::from_str("解析结果失败: ").concat(e.as_str())),
    }
}

/// The member `key` of the object member `third_param`.
pub open spec fn third_param_member(t: JsonTree, key: Seq<char>) -> Option<JsonTree> {
    match t.get("third_param"@) {
        Some(p) => p.get(key),
        None => None,
    }
}

/// Whether `r` is what the Douyin script's result object `t` says: the
/// step (as for the generic script), the message (`完成` by default), the
/// nickname (`抖音用户` by default), the avatar, the URL and the user id;
/// the compact text of `third_param` (`{}` by default) as the request
/// headers, its `cookie` text as the cookie and the compact text of its
/// `local_data` as the local storage (empty when missing); nothing to poll.
pub open spec fn douyin_result_from_json(t: JsonTree, r: BrowserAuthResult) -> bool {
    &&& step_from_json(t, r.step)
    &&& r.message@ == str_or(t, "message"@, "完成"@)
    &&& r.nickname@ == str_or(t, "nickname"@, "抖音用户"@)
    &&& r.avatar_url@ == t.str_or_empty("avatar_url"@)
    &&& r.current_url@ == t.str_or_empty("url"@)
    &&& r.request_headers@ == member_text_or(t, "third_param"@, "{}"@)
    &&& r.third_id@ == t.str_or_empty("third_id"@)
    &&& r.cookie@ == match third_param_member(t, "cookie"@) {
        Some(JsonTree::Str(c)) => c,
        _ => Seq::empty(),
    }
    &&& r.local_storage@ == match third_param_member(t, "local_data"@) {
        Some(d) => json_text(d),
        None => Seq::empty(),
    }
    &&& r.sec_uid@.len() == 0
    &&& !r.need_poll
    &&& r.error is None
    &&& r.screenshot is None
}

/// The result that a parsed result object of the Douyin script holds.
pub fn douyin_result_from_value(v: &JsonValue) -> (r: BrowserAuthResult)
    ensures
        douyin_result_from_json(v@, r),
{
    let (cookie, local_storage) = match v.get("third_param") {
        Some(p) => (
            p.str_or_empty("cookie"),
            match p.get("local_data") {
                Some(d) => to_json_string(d),
                None => String::new(),
            },
        ),
        None => (String::new(), String::new()),
    };
    BrowserAuthResult {
        step: step_from_value(v),
        current_url: v.str_or_empty("url"),
        message: get_str_or(v, "message", "完成"),
        cookie,
        local_storage,
        nickname: get_str_or(v, "nickname", "抖音用户"),
        avatar_url: v.str_or_empty("avatar_url"),
        third_id: v.str_or_empty("third_id"),
        sec_uid: String::new(),
        error: None,
        screenshot: None,
        need_poll: false,
        request_headers: member_text(v, "third_param", "{}"),
    }
}

/// What reading the Douyin script's result text gives: the result when the
/// text is a result object of a completed run; the message when the run did
/// not complete; `解析结果失败: ` and the JSON error when the text is not
/// JSON.
pub open spec fn douyin_parse_ok(text: Seq<char>, r: Result<BrowserAuthResult, String>) -> bool {
    match spec_parse_json(text) {
        Ok(t) => match r {
            Ok(res) => douyin_result_from_json(t, res) && t.get_str("step"@) == Some("completed"@),
            Err(m) => exists|res: BrowserAuthResult| douyin_result_from_json(t, res) && !(res.step is Completed)
                && m@ == res.message@,
        },
        Err(e) => r matches Err(m) && m@ == "解析结果失败: "@ + e,
    }
}

/// Reads the Douyin script's result text.
pub fn parse_douyin_result(content: &str) -> (r: Result<BrowserAuthResult, String>)
    ensures
        douyin_parse_ok(content@, r),
{
    match parse_json(content) {
        Ok(v) => {
            let res = douyin_result_from_value(&v);
            proof { reveal_strlit("completed"); }
            if res.step.is_completed() {
                Ok(res)
            } else {
                let m = res.message.clone();
                Err(m)
            }
        },
        Err(e) => Err(String::from_str("解析结果失败: ").concat(e.as_str())),
    }
}

/// What a finished run of the Douyin script gives: `脚本执行失败` when it
/// exited unsuccessfully, `未获取到结果` when it printed no result text,
/// else the reading of the collected result text.
pub fn douyin_script_result(exited_ok: bool, collected: &ResultCollector) -> (r: Result<BrowserAuthResult, String>)
    ensures
        !exited_ok ==> (r matches Err(m) && m@ == "脚本执行失败"@),
        exited_ok && join_with(crate::model::strs(collected.lines@), seq!['\n']).len() == 0
            ==> (r matches Err(m) && m@ == "未获取到结果"@),
        exited_ok && join_with(crate::model::strs(collected.lines@), seq!['\n']).len() > 0
            ==> douyin_parse_ok(join_with(crate::model::strs(collected.lines@), seq!['\n']), r),
{
    if !exited_ok {
        return Err(String::from_str("脚本执行失败"));
    }
    let text = collected.text();
    if text.as_str().is_empty() {
        return Err(String::from_str("未获取到结果"));
    }
    parse_douyin_result(text.as_str())
}

/// An optional text as JSON: the text, or null.
pub open spec fn opt_text_tree(o: Option<String>) -> JsonTree {
    match o {
        Some(x) => JsonTree::Str(x@),
        None => JsonTree::Null,
    }
}

fn opt_text_value(o: &Option<String>) -> (r: JsonValue)
    ensures
        r@ == opt_text_tree(*o),
{
    match o {
        Some(x) => jstr(x.as_str()),
        None => JsonValue::Null,
    }
}

/// The configuration handed to the script: the platform, its login page,
/// how a successful login is recognized, where to go after it, and the
/// extraction rules.
pub open spec fn script_config_json(c: ExtractorConfig) -> JsonTree {
    crate::json::object_of(seq![
        ("platform_id"@, JsonTree::Str(c.platform_id@)),
        ("platform_name"@, JsonTree::Str(c.platform_name@)),
        ("login_url"@, JsonTree::Str(c.login_url@)),
        ("login_success_mode"@, JsonTree::Str(c.login_success_mode@)),
        ("login_success_pattern"@, JsonTree::Str(c.login_success_pattern@)),
        ("login_success_api_rule"@, opt_text_tree(c.login_success_api_rule)),
        ("login_success_api_operator"@, opt_text_tree(c.login_success_api_operator)),
        ("login_success_api_value"@, opt_text_tree(c.login_success_api_value)),
        ("redirect_url"@, opt_text_tree(c.redirect_url)),
        ("extract_rules"@, c.extract_rules@),
    ])
}

/// The script's configuration text for `platform_id`, from what reading
/// the stored configuration gave: its JSON text; `未找到平台配置: ` and the
/// id when there is none; `读取配置失败: ` and the reason when reading
/// failed.
pub fn script_config(platform_id: &str, lookup: Result<Option<ExtractorConfig>, String>) -> (r: Result<String, String>)
    ensures
        match lookup {
            Ok(Some(c)) => r matches Ok(t) && t@ == json_text(script_config_json(c)),
            Ok(None) => r matches Err(m) && m@ == "未找到平台配置: "@ + platform_id@,
            Err(e) => r matches Err(m) && m@ == "读取配置失败: "@ + e@,
        },
{
    let c = match lookup {
        Ok(Some(c)) => c,
        Ok(None) => { return Err(String::from_str("未找到平台配置: ").concat(platform_id)); },
        Err(e) => { return Err(String::from_str("读取配置失败: ").concat(e.as_str())); },
    };
    let mut o = empty_object();
    obj_set(&mut o, "platform_id", jstr(c.platform_id.as_str()));
    obj_set(&mut o, "platform_name", jstr(c.platform_name.as_str()));
    obj_set(&mut o, "login_url", jstr(c.login_url.as_str()));
    obj_set(&mut o, "login_success_mode", jstr(c.login_success_mode.as_str()));
    obj_set(&mut o, "login_success_pattern", jstr(c.login_success_pattern.as_str()));
    obj_set(&mut o, "login_success_api_rule", opt_text_value(&c.login_success_api_rule));
    obj_set(&mut o, "login_success_api_operator", opt_text_value(&c.login_success_api_operator));
    obj_set(&mut o, "login_success_api_value", opt_text_value(&c.login_success_api_value));
    obj_set(&mut o, "redirect_url", opt_text_value(&c.redirect_url));
    obj_set(&mut o, "extract_rules", crate::json::copy_json(&c.extract_rules));
    proof {
        crate::publish_strategy::lemma_object_of_steps(seq![
            ("platform_id"@, JsonTree::Str(c.platform_id@)),
            ("platform_name"@, JsonTree::Str(c.platform_name@)),
            ("login_url"@, JsonTree::Str(c.login_url@)),
            ("login_success_mode"@, JsonTree::Str(c.login_success_mode@)),
            ("login_success_pattern"@, JsonTree::Str(c.login_success_pattern@)),
            ("login_success_api_rule"@, opt_text_tree(c.login_success_api_rule)),
            ("login_success_api_operator"@, opt_text_tree(c.login_success_api_operator)),
            ("login_success_api_value"@, opt_text_tree(c.login_success_api_value)),
            ("redirect_url"@, opt_text_tree(c.redirect_url)),
            ("extract_rules"@, c.extract_rules@),
        ]);
    }
    Ok(to_json_string(&o))
}

/// What a finished script run gives: when it exited unsuccessfully, the
/// exit failure; when it printed no result text, `未获取到结果`; else the
/// reading of the collected result text.
pub fn script_result(exited_ok: bool, code: Option<i32>, collected: &ResultCollector) -> (r: Result<BrowserAuthResult, String>)
    ensures
        !exited_ok ==> (r matches Err(m) && m@ == "脚本执行失败, 退出码: "@ + exit_code_text(code)),
        exited_ok && join_with(crate::model::strs(collected.lines@), seq!['\n']).len() == 0
            ==> (r matches Err(m) && m@ == "未获取到结果"@),
        exited_ok && join_with(crate::model::strs(collected.lines@), seq!['\n']).len() > 0
            ==> parse_result_ok(join_with(crate::model::strs(collected.lines@), seq!['\n']), r),
{
    if !exited_ok {
        return Err(exit_failure_message(code));
    }
    let text = collected.text();
    if text.as_str().is_empty() {
        return Err(String::from_str("未获取到结果"));
    }
    parse_result(text.as_str())
}

// ---------------------------------------------------------------------------
// The generic browser
// ---------------------------------------------------------------------------

/// The browser driven by the stored extraction rules of a platform.
pub struct GenericBrowser {
    pub result: BrowserAuthResult,
    pub db_manager: Option<Arc<DatabaseManager>>,
}

/// How the script run ended: it timed out, its task could not be joined
/// (with the reason), or it finished with a result or an error.
pub enum ScriptOutcome {
    TimedOut,
    JoinFailed(String),
    Finished(Result<BrowserAuthResult, String>),
}

impl GenericBrowser {
    /// A browser with the initial result and no database.
    pub fn new() -> (r: Self)
        ensures
            is_initial_result(r.result),
            r.db_manager is None,
    {
        GenericBrowser { result: BrowserAuthResult::default(), db_manager: None }
    }

    /// Sets the database that holds the platform configurations.
    pub fn set_db_manager(&mut self, db_manager: Arc<DatabaseManager>)
        ensures
            final(self).db_manager == Some(db_manager),
            final(self).result == old(self).result,
    {
        self.db_manager = Some(db_manager);
    }

    /// The current result.
    pub fn get_result(&self) -> (r: &BrowserAuthResult)
        ensures
            *r == self.result,
    {
        &self.result
    }

    /// Whether the browser can read the platform configurations: without a
    /// database, `数据库管理器未设置`.
    pub fn require_database(&self) -> (r: Result<(), String>)
        ensures
            self.db_manager is None ==> (r matches Err(m) && m@ == "数据库管理器未设置"@),
            self.db_manager is Some ==> r is Ok,
    {
        match &self.db_manager {
            Some(_) => Ok(()),
            None => Err(String::from_str("数据库管理器未设置")),
        }
    }

    /// Marks the start of a run for `platform_id`.
    pub fn begin(&mut self, platform_id: &str)
        ensures
            final(self).result.step is LaunchingBrowser,
            final(self).result.message@ == "正在启动浏览器 for "@ + platform_id@ + "..."@,
            final(self).db_manager == old(self).db_manager,
    {
        self.result.step = BrowserAuthStep::LaunchingBrowser;
        self.result.message = String::from_str("正在启动浏览器 for ").concat(platform_id).concat("...");
    }

    /// Records how the run ended: a finished run's result replaces the
    /// current one and is returned; a failure (the run's error, a timeout,
    /// or a task that could not be joined) is recorded and returned.
    pub fn finish(&mut self, outcome: ScriptOutcome) -> (r: Result<BrowserAuthResult, String>)
        ensures
            final(self).db_manager == old(self).db_manager,
            match outcome {
                ScriptOutcome::Finished(Ok(res)) => final(self).result == res && r == Ok::<BrowserAuthResult, String>(res),
                ScriptOutcome::Finished(Err(e)) => failed_with(old(self).result, final(self).result, e@)
                    && (r matches Err(m) && m@ == e@),
                ScriptOutcome::TimedOut => failed_with(old(self).result, final(self).result, "脚本执行超时 (60秒)"@)
                    && (r matches Err(m) && m@ == "脚本执行超时 (60秒)"@),
                ScriptOutcome::JoinFailed(e) => failed_with(old(self).result, final(self).result, "任务执行失败: "@ + e@)
                    && (r matches Err(m) && m@ == "任务执行失败: "@ + e@),
            },
    {
        let msg = match outcome {
            ScriptOutcome::Finished(Ok(res)) => {
                self.result = res.copy();
                return Ok(res);
            },
            ScriptOutcome::Finished(Err(e)) => e,
            ScriptOutcome::TimedOut => String::from_str("脚本执行超时 (60秒)"),
            ScriptOutcome::JoinFailed(e) => String::from_str("任务执行失败: ").concat(e.as_str()),
        };
        record_failure(&mut self.result, msg.clone());
        Err(msg)
    }

    /// Cancels the run.
    pub fn cancel(&mut self)
        ensures
            cancelled(old(self).result, final(self).result),
            final(self).db_manager == old(self).db_manager,
    {
        record_cancel(&mut self.result);
    }
}

// ---------------------------------------------------------------------------
// The automator kept between polls
// ---------------------------------------------------------------------------

/// Keeps the browser of the current run, its result, and the account that
/// a completed run updates.
pub struct BrowserAutomator {
    pub browser: Option<GenericBrowser>,
    pub result: BrowserAuthResult,
    /// The account to update when the run completes (none: a new account).
    pub account_id: Option<String>,
}

impl BrowserAutomator {
    /// An automator with no run.
    pub fn new() -> (r: Self)
        ensures
            r.browser is None,
            is_initial_result(r.result),
            r.account_id is None,
    {
        BrowserAutomator { browser: None, result: BrowserAuthResult::default(), account_id: None }
    }

    /// Records a started run: the account to update, the browser, and the
    /// result it gave.
    pub fn started(&mut self, account_id: Option<&str>, browser: GenericBrowser, result: BrowserAuthResult)
        ensures
            crate::model::opt_str(final(self).account_id) == match account_id { Some(a) => Some(a@), None => None::<Seq<char>> },
            final(self).browser == Some(browser),
            final(self).result == result,
    {
        self.account_id = match account_id {
            Some(a) => Some(String::from_str(a)),
            None => None,
        };
        self.browser = Some(browser);
        self.result = result;
    }

    /// Takes over the browser's result and says whether to poll again
    /// (never, when there is no browser).
    pub fn check_and_extract(&mut self) -> (r: Result<bool, String>)
        ensures
            final(self).browser == old(self).browser,
            final(self).account_id == old(self).account_id,
            match old(self).browser {
                Some(b) => final(self).result == BrowserAuthResult { screenshot: old(self).result.screenshot, ..b.result }
                    && r == Ok::<bool, String>(b.result.need_poll),
                None => final(self).result == old(self).result && r == Ok::<bool, String>(false),
            },
    {
        match &self.browser {
            Some(b) => {
                let br = b.get_result();
                let shot = crate::model::copy_opt(&self.result.screenshot);
                self.result = BrowserAuthResult { screenshot: shot, ..br.copy() };
                Ok(self.result.need_poll)
            },
            None => Ok(false),
        }
    }

    /// Cancels the run: the browser (if any) and the kept result become idle.
    pub fn cancel(&mut self)
        ensures
            cancelled(old(self).result, final(self).result),
            final(self).account_id == old(self).account_id,
            match old(self).browser {
                Some(b) => final(self).browser matches Some(nb) && cancelled(b.result, nb.result)
                    && nb.db_manager == b.db_manager,
                None => final(self).browser is None,
            },
    {
        match &mut self.browser {
            Some(b) => b.cancel(),
            None => {},
        }
        record_cancel(&mut self.result);
    }

    /// The kept result.
    pub fn get_result(&self) -> (r: &BrowserAuthResult)
        ensures
            *r == self.result,
    {
        &self.result
    }

    /// The kept result, to change.
    pub fn get_result_mut(&mut self) -> (r: &mut BrowserAuthResult)
        ensures
            *r == old(self).result,
            *final(self) == (BrowserAutomator { result: *final(r), ..*old(self) }),
    {
        &mut self.result
    }
}

// ---------------------------------------------------------------------------
// The Playwright browser for Douyin
// ---------------------------------------------------------------------------

/// The Douyin browser run through Playwright.
pub struct DouyinBrowserPlaywright {
    pub result: BrowserAuthResult,
}

impl DouyinBrowserPlaywright {
    /// A browser with the initial result.
    pub fn new() -> (r: Self)
        ensures
            is_initial_result(r.result),
    {
        DouyinBrowserPlaywright { result: BrowserAuthResult::default() }
    }

    /// Marks the start of a run.
    pub fn begin(&mut self)
        ensures
            final(self).result.step is LaunchingBrowser,
            final(self).result.message@ == "正在启动浏览器..."@,
    {
        self.result.step = BrowserAuthStep::LaunchingBrowser;
        self.result.message = String::from_str("正在启动浏览器...");
    }

    /// Records how the run ended (see `GenericBrowser::finish`; a task that
    /// could not be joined is reported as a failed Playwright task).
    pub fn finish(&mut self, outcome: Result<Result<BrowserAuthResult, String>, String>) -> (r: Result<BrowserAuthResult, String>)
        ensures
            match outcome {
                Ok(Ok(res)) => final(self).result == res && r == Ok::<BrowserAuthResult, String>(res),
                Ok(Err(e)) => failed_with(old(self).result, final(self).result, e@) && (r matches Err(m) && m@ == e@),
                Err(e) => failed_with(old(self).result, final(self).result, "Playwright 任务失败: "@ + e@)
                    && (r matches Err(m) && m@ == "Playwright 任务失败: "@ + e@),
            },
    {
        let msg = match outcome {
            Ok(Ok(res)) => {
                self.result = res.copy();
                return Ok(res);
            },
            Ok(Err(e)) => e,
            Err(e) => String::from_str("Playwright 任务失败: ").concat(e.as_str()),
        };
        record_failure(&mut self.result, msg.clone());
        Err(msg)
    }

    /// Polling finds nothing more: the run reports its result at once.
    pub fn check_and_extract(&self) -> (r: Result<bool, String>)
        ensures
            r == Ok::<bool, String>(false),
    {
        Ok(false)
    }

    /// Cancels the run.
    pub fn cancel(&mut self)
        ensures
            cancelled(old(self).result, final(self).result),
    {
        record_cancel(&mut self.result);
    }

    /// The current result.
    pub fn get_result(&self) -> (r: &BrowserAuthResult)
        ensures
            *r == self.result,
    {
        &self.result
    }

    /// The browsers directory for the home directory `home`.
    pub fn get_browsers_dir(home: Option<String>) -> (r: String)
        ensures
            r@ == crate::model::path_join(playwright_dir(crate::model::opt_str(home)), "browsers"@),
    {
        get_browsers_dir(home)
    }
}

} // verus!
