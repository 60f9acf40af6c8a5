//! The decisions behind the application's commands: the platforms offered,
//! how a platform is named, the result of publishing a task on each of its
//! accounts, the status answers of a browser authorization, the account
//! saved from captured credentials and a new publication task.

use vstd::prelude::*;
use crate::chars::{str_eq, chars_of, string_of, push_str, push_chars, join_with, join_chars, split_char,
    split_char_exec, trim_prefix_all, trim_prefix_all_exec};
use crate::text::{trimmed, trim_chars};
use crate::crypto::{to_lowercase, spec_to_lowercase};
use vstd::utf8::{encode_utf8, decode_utf8, is_char_boundary};
use crate::model::{PlatformType, PublicationStatus, PublicationStats, PublicationTask, PublicationAccountDetail,
    PublicationTaskWithAccounts, PlatformPublication, PublishResult, PlatformError, UserAccount, AccountStatus,
    error_text, spec_display_name, spec_platform_name, or_empty, copy_opt, copy_strings, unwrap_or_empty};
use crate::publish_strategy::PublishRequest;
use crate::browser::{BrowserAuthResult, BrowserAuthStep, step_debug_text};
use crate::json::{JsonValue, JsonTree, parse_json, spec_parse_json, empty_object, obj_set, jstr, members_insert,
    json_text, to_json_string, object_of};

verus! {

// ---------------------------------------------------------------------------
// Greeting and platforms
// ---------------------------------------------------------------------------

/// The greeting for `name`.
pub open spec fn greeting(name: Seq<char>) -> Seq<char> {
    "Hello, "@ + name + "! You've been greeted from Rust!"@
}

/// Greets `name`.
pub fn greet(name: &str) -> (r: String)
    ensures
        r@ == greeting(name@),
{
    String::from_str("Hello, ").concat(name).concat("! You've been greeted from Rust!")
}

/// A platform as the application offers it.
pub struct PlatformInfo {
    pub id: String,
    pub name: String,
    pub icon: String,
    pub color: String,
}

/// The id, name, icon and color of a platform entry.
pub open spec fn info_view(p: PlatformInfo) -> (Seq<char>, Seq<char>, Seq<char>, Seq<char>) {
    (p.id@, p.name@, p.icon@, p.color@)
}

/// The platforms offered, in order.
pub open spec fn offered_platforms() -> Seq<(Seq<char>, Seq<char>, Seq<char>, Seq<char>)> {
    seq![
        ("douyin"@, "抖音"@, "/src/assets/icons/douyin.png"@, "#000000"@),
        ("xiaohongshu"@, "小红书"@, "/src/assets/icons/xiaohongshu.ico"@, "#FE2C55"@),
        ("kuaishou"@, "快手"@, "/src/assets/icons/kuaishu.ico"@, "#FF4906"@),
        ("bilibili"@, "B站"@, "/src/assets/icons/bilibili.ico"@, "#00A1D6"@),
    ]
}

fn info(id: &str, name: &str, icon: &str, color: &str) -> (r: PlatformInfo)
    ensures
        info_view(r) == (id@, name@, icon@, color@),
{
    PlatformInfo { id: String::from_str(id), name: String::from_str(name), icon: String::from_str(icon),
        color: String::from_str(color) }
}

/// The platforms the application offers.
pub fn get_supported_platforms() -> (r: Vec<PlatformInfo>)
    ensures
        r@.map_values(|p: PlatformInfo| info_view(p)) == offered_platforms(),
{
    let mut v: Vec<PlatformInfo> = Vec::new();
    v.push(info("douyin", "抖音", "/src/assets/icons/douyin.png", "#000000"));
    v.push(info("xiaohongshu", "小红书", "/src/assets/icons/xiaohongshu.ico", "#FE2C55"));
    v.push(info("kuaishou", "快手", "/src/assets/icons/kuaishu.ico", "#FF4906"));
    v.push(info("bilibili", "B站", "/src/assets/icons/bilibili.ico", "#00A1D6"));
    assert(v@.map_values(|p: PlatformInfo| info_view(p)) =~= offered_platforms());
    v
}

/// The platform whose id is exactly `s`.
pub open spec fn platform_with_id(s: Seq<char>) -> Option<PlatformType> {
    if s == "douyin"@ {
        Some(PlatformType::Douyin)
    } else if s == "xiaohongshu"@ {
        Some(PlatformType::Xiaohongshu)
    } else if s == "kuaishou"@ {
        Some(PlatformType::Kuaishou)
    } else if s == "bilibili"@ {
        Some(PlatformType::Bilibili)
    } else {
        None
    }
}

/// The platform whose id is exactly `platform`, if any.
pub fn platform_by_id(platform: &str) -> (r: Option<PlatformType>)
    ensures
        r == platform_with_id(platform@),
{
    if str_eq(platform, "douyin") {
        Some(PlatformType::Douyin)
    } else if str_eq(platform, "xiaohongshu") {
        Some(PlatformType::Xiaohongshu)
    } else if str_eq(platform, "kuaishou") {
        Some(PlatformType::Kuaishou)
    } else if str_eq(platform, "bilibili") {
        Some(PlatformType::Bilibili)
    } else {
        None
    }
}

/// The platform of an account request: an unknown id is refused with
/// `Unknown platform: <id>`.
pub fn account_platform(platform: &str) -> (r: Result<PlatformType, String>)
    ensures
        match platform_with_id(platform@) {
            Some(p) => r == Ok::<PlatformType, String>(p),
            None => r matches Err(e) && e@ == "Unknown platform: "@ + platform@,
        },
{
    match platform_by_id(platform) {
        Some(p) => Ok(p),
        None => Err(String::from_str("Unknown platform: ").concat(platform)),
    }
}

/// The platform with id `platform`, Douyin for an unknown id.
pub fn platform_or_douyin(platform: &str) -> (r: PlatformType)
    ensures
        r == match platform_with_id(platform@) { Some(p) => p, None => PlatformType::Douyin },
{
    match platform_by_id(platform) {
        Some(p) => p,
        None => PlatformType::Douyin,
    }
}

/// The display name of the platform with id `s`, `未知` for an unknown id.
pub open spec fn platform_name_of(s: Seq<char>) -> Seq<char> {
    match platform_with_id(s) {
        Some(p) => spec_display_name(p),
        None => "未知"@,
    }
}

/// The display name of the platform with id `platform`.
pub fn get_platform_name(platform: &str) -> (r: String)
    ensures
        r@ == platform_name_of(platform@),
{
    match platform_by_id(platform) {
        Some(p) => p.display_name(),
        None => String::from_str("未知"),
    }
}

// ---------------------------------------------------------------------------
// Publishing a task on its accounts
// ---------------------------------------------------------------------------

/// The outcome of publishing a task on one account.
pub struct PublishTaskResult {
    pub success: bool,
    pub detail_id: String,
    pub publish_url: Option<String>,
    pub error: Option<String>,
}

/// The address of a published Douyin item.
pub open spec fn douyin_url(item_id: Seq<char>) -> Seq<char> {
    "https://v.douyin.com/"@ + item_id
}

/// The address of a published item, when its id is known.
pub open spec fn item_url(item_id: Option<String>) -> Option<Seq<char>> {
    match item_id {
        Some(i) => Some(douyin_url(i@)),
        None => None,
    }
}

/// The text of an optional string.
pub open spec fn opt_text(o: Option<String>) -> Option<Seq<char>> {
    match o {
        Some(s) => Some(s@),
        None => None,
    }
}

/// What to do for one account of a task.
pub enum AccountPublishStep {
    /// Nothing to publish: this is the account's result.
    Finished(PublishTaskResult),
    /// Publish this request on the account.
    Publish(PublishRequest),
}

/// `req` publishes the task's video on the detail's account: the task's
/// path, cover, title, description and hashtags, everything else unset
/// (visibility, download flag and timeout zero).
pub open spec fn is_task_request(task: PublicationTask, detail: PublicationAccountDetail, req: PublishRequest) -> bool {
    &&& req.account_id@ == detail.account_id@
    &&& req.video_path@ == task.video_path@
    &&& opt_text(req.cover_path) == opt_text(task.cover_path)
    &&& req.title@ == task.title@
    &&& opt_text(req.description) == opt_text(task.description)
    &&& req.hashtag_names@.map_values(|h: String| h@) == task.hashtags@.map_values(|h: String| h@)
    &&& req.record_id is None
    &&& req.third_id is None
    &&& req.params@.len() == 0
    &&& req.download_allowed == Some(0i32)
    &&& req.visibility_type == Some(0i32)
    &&& req.timeout == Some(0i64)
    &&& req.send_time is None
    &&& req.music_info is None
    &&& req.poi_id is None
    &&& req.poi_name is None
    &&& req.anchor is None
    &&& req.extra_info is None
}

fn copy_text(o: &Option<String>) -> (r: Option<String>)
    ensures
        opt_text(r) == opt_text(*o),
{
    copy_opt(o)
}

/// The request that publishes the task's video on the detail's account.
pub fn task_request(task: &PublicationTask, detail: &PublicationAccountDetail) -> (r: PublishRequest)
    ensures
        is_task_request(*task, *detail, r),
{
    let tags = copy_strings(&task.hashtags);
    PublishRequest {
        account_id: detail.account_id.clone(),
        video_path: task.video_path.clone(),
        cover_path: copy_text(&task.cover_path),
        title: task.title.clone(),
        description: copy_text(&task.description),
        hashtag_names: tags,
        record_id: None,
        third_id: None,
        params: String::new(),
        download_allowed: Some(0),
        visibility_type: Some(0),
        timeout: Some(0),
        send_time: None,
        music_info: None,
        poi_id: None,
        poi_name: None,
        anchor: None,
        extra_info: None,
    }
}

/// What to do for one account of a task. An account already published is
/// reported as a success with its address; one whose stored account is
/// missing fails with `Account not found`; only Douyin can be published
/// to, other platforms fail with `Unsupported platform: <name>`. The
/// account's presence is read only for an account not yet published.
pub fn plan_account_publish(task: &PublicationTask, detail: &PublicationAccountDetail, account_found: bool) -> (r: AccountPublishStep)
    ensures
        detail.status == PublicationStatus::Completed ==> (r matches AccountPublishStep::Finished(x)
            && x.success && x.detail_id@ == detail.id@ && opt_text(x.publish_url) == opt_text(detail.publish_url)
            && x.error is None),
        detail.status != PublicationStatus::Completed && !account_found ==> (r matches AccountPublishStep::Finished(x)
            && !x.success && x.detail_id@ == detail.id@ && x.publish_url is None
            && (x.error matches Some(e) && e@ == "Account not found"@)),
        detail.status != PublicationStatus::Completed && account_found && detail.platform != PlatformType::Douyin ==>
            (r matches AccountPublishStep::Finished(x)
            && !x.success && x.detail_id@ == detail.id@ && x.publish_url is None
            && (x.error matches Some(e) && e@ == "Unsupported platform: "@ + spec_platform_name(detail.platform))),
        detail.status != PublicationStatus::Completed && account_found && detail.platform == PlatformType::Douyin ==>
            (r matches AccountPublishStep::Publish(req) && is_task_request(*task, *detail, req)),
{
    if detail.status == PublicationStatus::Completed {
        return AccountPublishStep::Finished(PublishTaskResult {
            success: true,
            detail_id: detail.id.clone(),
            publish_url: copy_text(&detail.publish_url),
            error: None,
        });
    }
    if !account_found {
        return AccountPublishStep::Finished(PublishTaskResult {
            success: false,
            detail_id: detail.id.clone(),
            publish_url: None,
            error: Some(String::from_str("Account not found")),
        });
    }
    match detail.platform {
        PlatformType::Douyin => AccountPublishStep::Publish(task_request(task, detail)),
        _ => {
            let name = detail.platform.name();
            AccountPublishStep::Finished(PublishTaskResult {
                success: false,
                detail_id: detail.id.clone(),
                publish_url: None,
                error: Some(String::from_str("Unsupported platform: ").concat(name.as_str())),
            })
        },
    }
}

/// The task looked up for publishing: `Task not found` when there is none.
pub fn found_task<T>(found: Option<T>) -> (r: Result<T, String>)
    ensures
        match found {
            Some(t) => r == Ok::<T, String>(t),
            None => r matches Err(e) && e@ == "Task not found"@,
        },
{
    match found {
        Some(t) => Ok(t),
        None => Err(String::from_str("Task not found")),
    }
}

/// A task being published to its accounts, one account after the other:
/// the task's accounts, the task, and the results of the accounts handled
/// so far, in the accounts' order.
pub struct TaskPublishRun {
    pub accounts: Vec<PublicationAccountDetail>,
    pub task: PublicationTask,
    pub results: Vec<PublishTaskResult>,
}

impl TaskPublishRun {
    /// The run of `task`'s accounts with the stored task `main_task`,
    /// before any account is handled.
    pub fn new(task: PublicationTaskWithAccounts, main_task: PublicationTask) -> (r: Self)
        ensures
            r.accounts == task.accounts,
            r.task == main_task,
            r.results@.len() == 0,
    {
        TaskPublishRun { accounts: task.accounts, task: main_task, results: Vec::new() }
    }

    /// The position of the next account to handle, if any is left.
    pub fn pending(&self) -> (r: Option<usize>)
        ensures
            r == (if self.results@.len() < self.accounts@.len() { Some(self.results@.len() as usize) } else { None }),
    {
        if self.results.len() < self.accounts.len() { Some(self.results.len()) } else { None }
    }

    /// Records the result of the next account.
    pub fn record(&mut self, result: PublishTaskResult)
        requires
            old(self).results@.len() < old(self).accounts@.len(),
        ensures
            final(self).results@ == old(self).results@.push(result),
            final(self).accounts == old(self).accounts,
            final(self).task == old(self).task,
    {
        self.results.push(result);
    }

    /// The results, one per account handled, in order.
    pub fn finish(self) -> (r: Vec<PublishTaskResult>)
        ensures
            r@ == self.results@,
    {
        self.results
    }
}

/// The status update of a published account: its new status and address.
pub struct StatusUpdate {
    pub status: PublicationStatus,
    pub publish_url: Option<String>,
}

/// The result of publishing on one account and the update of its stored
/// status. A failed call is reported with the error's message and changes
/// nothing; an answer completes the account when it says success and fails
/// it otherwise, with the item's address when the item id is known.
pub fn finish_account_publish(detail: &PublicationAccountDetail, outcome: Result<PublishResult, PlatformError>)
    -> (r: (PublishTaskResult, Option<StatusUpdate>))
    ensures
        r.0.detail_id@ == detail.id@,
        match outcome {
            Err(e) => !r.0.success && r.0.publish_url is None && (r.0.error matches Some(m) && m@ == error_text(e))
                && r.1 is None,
            Ok(p) => r.0.success == p.success && opt_text(r.0.publish_url) == item_url(p.item_id)
                && opt_text(r.0.error) == opt_text(p.error_message)
                && (r.1 matches Some(u) && u.status == (if p.success { PublicationStatus::Completed } else { PublicationStatus::Failed })
                    && opt_text(u.publish_url) == item_url(p.item_id)),
        },
{
    match outcome {
        Err(e) => {
            let m = e.to_string();
            (PublishTaskResult { success: false, detail_id: detail.id.clone(), publish_url: None, error: Some(m) }, None)
        },
        Ok(p) => {
            let url = match &p.item_id {
                Some(i) => Some(String::from_str("https://v.douyin.com/").concat(i.as_str())),
                None => None,
            };
            let url2 = copy_text(&url);
            let status = if p.success { PublicationStatus::Completed } else { PublicationStatus::Failed };
            (PublishTaskResult { success: p.success, detail_id: detail.id.clone(), publish_url: url, error: p.error_message },
             Some(StatusUpdate { status, publish_url: url2 }))
        },
    }
}

/// A stored record looked up: present, missing (refused with `missing`), or
/// a storage failure (refused with `Database error: <reason>`).
pub fn require_found(lookup: Result<bool, String>, missing: &str) -> (r: Result<(), String>)
    ensures
        match lookup {
            Ok(true) => r is Ok,
            Ok(false) => r matches Err(e) && e@ == missing@,
            Err(d) => r matches Err(e) && e@ == "Database error: "@ + d@,
        },
{
    match lookup {
        Ok(true) => Ok(()),
        Ok(false) => Err(String::from_str(missing)),
        Err(d) => Err(String::from_str("Database error: ").concat(d.as_str())),
    }
}

/// The request of the direct publishing command: only `douyin` is
/// accepted (else `Unsupported platform: <id>`), and the account must be
/// stored (else `Account not found`, or the storage failure).
pub fn video_command_request(platform: &str, account_id: &str, video_path: &str, title: &str, description: &str,
    hashtags: Vec<String>, account_lookup: Result<bool, String>) -> (r: Result<PublishRequest, String>)
    ensures
        platform@ != "douyin"@ ==> (r matches Err(e) && e@ == "Unsupported platform: "@ + platform@),
        platform@ == "douyin"@ ==> match account_lookup {
            Ok(true) => r matches Ok(req) && req.account_id@ == account_id@ && req.video_path@ == video_path@
                && req.cover_path is None && req.title@ == title@
                && (req.description matches Some(d) && d@ == description@)
                && req.hashtag_names@ == hashtags@ && req.params@.len() == 0 && req.third_id is None
                && req.record_id is None && req.download_allowed == Some(0i32)
                && req.visibility_type == Some(0i32) && req.timeout == Some(0i64),
            Ok(false) => r matches Err(e) && e@ == "Account not found"@,
            Err(d) => r matches Err(e) && e@ == "Database error: "@ + d@,
        },
{
    if !str_eq(platform, "douyin") {
        return Err(String::from_str("Unsupported platform: ").concat(platform));
    }
    match require_found(account_lookup, "Account not found") {
        Err(e) => Err(e),
        Ok(()) => Ok(PublishRequest {
            account_id: String::from_str(account_id),
            video_path: String::from_str(video_path),
            cover_path: None,
            title: String::from_str(title),
            description: Some(String::from_str(description)),
            hashtag_names: hashtags,
            record_id: None,
            third_id: None,
            params: String::new(),
            download_allowed: Some(0),
            visibility_type: Some(0),
            timeout: Some(0),
            send_time: None,
            music_info: None,
            poi_id: None,
            poi_name: None,
            anchor: None,
            extra_info: None,
        }),
    }
}

/// The request that publishes a stored publication again: only Douyin
/// publications can be (else `Unsupported platform: <name>`); no hashtags.
pub fn saved_publication_request(publication: &PlatformPublication) -> (r: Result<PublishRequest, String>)
    ensures
        publication.platform != PlatformType::Douyin ==>
            (r matches Err(e) && e@ == "Unsupported platform: "@ + spec_platform_name(publication.platform)),
        publication.platform == PlatformType::Douyin ==> (r matches Ok(req)
            && req.account_id@ == publication.account_id@ && req.video_path@ == publication.video_path@
            && opt_text(req.cover_path) == opt_text(publication.cover_path) && req.title@ == publication.title@
            && (req.description matches Some(d) && d@ == publication.description@)
            && req.hashtag_names@.len() == 0 && req.params@.len() == 0 && req.third_id is None
            && req.record_id is None),
{
    match publication.platform {
        PlatformType::Douyin => Ok(PublishRequest {
            account_id: publication.account_id.clone(),
            video_path: publication.video_path.clone(),
            cover_path: copy_text(&publication.cover_path),
            title: publication.title.clone(),
            description: Some(publication.description.clone()),
            hashtag_names: Vec::new(),
            record_id: None,
            third_id: None,
            params: String::new(),
            download_allowed: Some(0),
            visibility_type: Some(0),
            timeout: Some(0),
            send_time: None,
            music_info: None,
            poi_id: None,
            poi_name: None,
            anchor: None,
            extra_info: None,
        }),
        _ => {
            let name = publication.platform.name();
            Err(String::from_str("Unsupported platform: ").concat(name.as_str()))
        },
    }
}

/// A stored publication after it was published again at time `now`: its
/// status follows the outcome, its address the item id, its counts restart.
pub fn republished(publication: PlatformPublication, result: &PublishResult, now: String) -> (r: PlatformPublication)
    ensures
        r.id == publication.id,
        r.account_id == publication.account_id,
        r.platform == publication.platform,
        r.title == publication.title,
        r.description == publication.description,
        r.video_path == publication.video_path,
        r.cover_path == publication.cover_path,
        r.created_at == publication.created_at,
        r.status == (if result.success { PublicationStatus::Completed } else { PublicationStatus::Failed }),
        (r.published_at matches Some(t) && t@ == now@),
        opt_text(r.publish_url) == item_url(result.item_id),
        r.stats == (PublicationStats { comments: 0, likes: 0, favorites: 0, shares: 0 }),
{
    let url = match &result.item_id {
        Some(i) => Some(String::from_str("https://v.douyin.com/").concat(i.as_str())),
        None => None,
    };
    PlatformPublication {
        id: publication.id,
        account_id: publication.account_id,
        platform: publication.platform,
        title: publication.title,
        description: publication.description,
        video_path: publication.video_path,
        cover_path: publication.cover_path,
        status: if result.success { PublicationStatus::Completed } else { PublicationStatus::Failed },
        created_at: publication.created_at,
        published_at: Some(now),
        publish_url: url,
        stats: PublicationStats { comments: 0, likes: 0, favorites: 0, shares: 0 },
    }
}

// ---------------------------------------------------------------------------
// Browser authorization answers
// ---------------------------------------------------------------------------

/// The state of a browser authorization as the application shows it.
pub struct BrowserAuthStatusResult {
    pub step: String,
    pub message: String,
    pub current_url: String,
    pub screenshot: Option<String>,
    pub need_poll: bool,
    pub cookie: String,
    pub local_storage: String,
    pub nickname: String,
    pub avatar_url: String,
    pub third_id: String,
    pub sec_uid: String,
    pub error: Option<String>,
}

/// `s` carries the run's captured data: address, screenshot, cookie, local
/// storage, nickname, avatar, user ids.
pub open spec fn carries_data(s: BrowserAuthStatusResult, r: BrowserAuthResult) -> bool {
    &&& s.current_url@ == r.current_url@
    &&& opt_text(s.screenshot) == opt_text(r.screenshot)
    &&& s.cookie@ == r.cookie@
    &&& s.local_storage@ == r.local_storage@
    &&& s.nickname@ == r.nickname@
    &&& s.avatar_url@ == r.avatar_url@
    &&& s.third_id@ == r.third_id@
    &&& s.sec_uid@ == r.sec_uid@
}

/// The status of a run as it stands: its step's debug name, its message
/// and error, and whether to poll again.
pub fn status_of(result: &BrowserAuthResult, need_poll: bool) -> (r: BrowserAuthStatusResult)
    ensures
        carries_data(r, *result),
        r.step@ == step_debug_text(result.step),
        r.message@ == result.message@,
        r.need_poll == need_poll,
        opt_text(r.error) == opt_text(result.error),
{
    BrowserAuthStatusResult {
        step: result.step.to_debug_string(),
        message: result.message.clone(),
        current_url: result.current_url.clone(),
        screenshot: copy_text(&result.screenshot),
        need_poll,
        cookie: result.cookie.clone(),
        local_storage: result.local_storage.clone(),
        nickname: result.nickname.clone(),
        avatar_url: result.avatar_url.clone(),
        third_id: result.third_id.clone(),
        sec_uid: result.sec_uid.clone(),
        error: copy_text(&result.error),
    }
}

/// The status of a completed run with the given message and error.
fn completed_status(result: &BrowserAuthResult, message: String, error: Option<String>) -> (r: BrowserAuthStatusResult)
    ensures
        carries_data(r, *result),
        r.step@ == "Completed"@,
        r.message == message,
        !r.need_poll,
        r.error == error,
{
    BrowserAuthStatusResult {
        step: String::from_str("Completed"),
        message,
        current_url: result.current_url.clone(),
        screenshot: copy_text(&result.screenshot),
        need_poll: false,
        cookie: result.cookie.clone(),
        local_storage: result.local_storage.clone(),
        nickname: result.nickname.clone(),
        avatar_url: result.avatar_url.clone(),
        third_id: result.third_id.clone(),
        sec_uid: result.sec_uid.clone(),
        error,
    }
}

/// Whether a run that has just started already holds credentials to save:
/// it completed with a cookie.
pub fn save_after_start(result: &BrowserAuthResult) -> (r: bool)
    ensures
        r == (result.step is Completed && result.cookie@.len() > 0),
{
    result.step.is_completed() && !result.cookie.as_str().is_empty()
}

/// The answer to starting a run. When the credentials were saved (the
/// saved account's nickname, or why saving failed), the run is reported
/// completed; otherwise as it stands.
pub fn start_auth_status(result: &BrowserAuthResult, saved: Option<Result<String, String>>) -> (r: BrowserAuthStatusResult)
    ensures
        match saved {
            Some(Ok(n)) => carries_data(r, *result) && r.step@ == "Completed"@ && !r.need_poll && r.error is None
                && r.message@ == "授权完成！账号: "@ + n@,
            Some(Err(e)) => carries_data(r, *result) && r.step@ == "Completed"@ && !r.need_poll
                && r.message@ == "授权完成但保存失败: "@ + e@ && (r.error matches Some(x) && x@ == e@),
            None => r.step@ == step_debug_text(result.step) && carries_data(r, *result) && r.message@ == result.message@
                && r.need_poll == result.need_poll && opt_text(r.error) == opt_text(result.error),
        },
{
    match saved {
        Some(Ok(n)) => completed_status(result, String::from_str("授权完成！账号: ").concat(n.as_str()), None),
        Some(Err(e)) => {
            let m = String::from_str("授权完成但保存失败: ").concat(e.as_str());
            completed_status(result, m, Some(e))
        },
        None => status_of(result, result.need_poll),
    }
}

/// Whether a polled run holds credentials to save: it needs no more
/// polling and has a cookie.
pub fn save_after_check(result: &BrowserAuthResult, need_poll: bool) -> (r: bool)
    ensures
        r == (!need_poll && result.cookie@.len() > 0),
{
    !need_poll && !result.cookie.as_str().is_empty()
}

/// The answer to polling a run. Saved credentials make it a completed run
/// (`授权成功！账号: <nickname>`); a failure to save them is refused with
/// `保存凭证失败: <reason>`; otherwise the run is reported as it stands.
pub fn check_auth_status(result: &BrowserAuthResult, need_poll: bool, saved: Option<Result<String, String>>)
    -> (r: Result<BrowserAuthStatusResult, String>)
    ensures
        match saved {
            Some(Ok(n)) => r matches Ok(x) && carries_data(x, *result) && x.step@ == "Completed"@ && !x.need_poll
                && x.error is None && x.message@ == "授权成功！账号: "@ + n@,
            Some(Err(e)) => r matches Err(m) && m@ == "保存凭证失败: "@ + e@,
            None => r matches Ok(x) && x.step@ == step_debug_text(result.step) && carries_data(x, *result)
                && x.message@ == result.message@ && x.need_poll == need_poll
                && opt_text(x.error) == opt_text(result.error),
        },
{
    match saved {
        Some(Ok(n)) => Ok(completed_status(result, String::from_str("授权成功！账号: ").concat(n.as_str()), None)),
        Some(Err(e)) => Err(String::from_str("保存凭证失败: ").concat(e.as_str())),
        None => Ok(status_of(result, need_poll)),
    }
}

/// The `third_param` object of saved credentials: the captured request
/// headers (when they are a JSON object) with the cookie and the local
/// storage text set.
pub open spec fn third_param_json(request_headers: Seq<char>, cookie: Seq<char>, local_storage: Seq<char>) -> JsonTree {
    let base = match spec_parse_json(request_headers) {
        Ok(JsonTree::Object(m)) => m,
        _ => Seq::empty(),
    };
    JsonTree::Object(members_insert(members_insert(base, "cookie"@, JsonTree::Str(cookie)), "local_data"@,
        JsonTree::Str(local_storage)))
}

/// The parameters saved with an account from a browser run.
pub open spec fn browser_params_json(r: BrowserAuthResult) -> JsonTree {
    object_of(seq![
        ("third_id"@, JsonTree::Str(r.third_id@)),
        ("sec_uid"@, JsonTree::Str(r.sec_uid@)),
        ("third_param"@, third_param_json(r.request_headers@, r.cookie@, r.local_storage@)),
    ])
}

/// The name given to an account: the captured nickname, else
/// `<platform name>用户`.
pub open spec fn account_nickname(r: BrowserAuthResult, platform: Seq<char>) -> Seq<char> {
    if r.nickname@.len() > 0 { r.nickname@ } else { platform_name_of(platform) + "用户"@ }
}

/// The account saved from a browser run on `platform`: the given id (else
/// `new_id`), named by its nickname, active, created at `now`, with the
/// run's credentials as its parameters.
pub fn browser_account(result: &BrowserAuthResult, platform: &str, account_id: Option<String>, new_id: String,
    now: String) -> (r: UserAccount)
    ensures
        r.id@ == (match account_id { Some(a) => a@, None => new_id@ }),
        r.username@ == account_nickname(*result, platform@),
        r.nickname@ == account_nickname(*result, platform@),
        r.avatar_url@ == result.avatar_url@,
        r.platform == (match platform_with_id(platform@) { Some(p) => p, None => PlatformType::Douyin }),
        r.params@ == json_text(browser_params_json(*result)),
        r.status == AccountStatus::Active,
        r.created_at == now,
{
    let mut third_param = match parse_json(result.request_headers.as_str()) {
        Ok(v) => v,
        Err(_) => empty_object(),
    };
    proof {
        match spec_parse_json(result.request_headers@) {
            Ok(JsonTree::Object(m)) => {},
            _ => { assert(match third_param@ { JsonTree::Object(m) => m, _ => Seq::empty() } == Seq::<(Seq<char>, JsonTree)>::empty()); },
        }
    }
    obj_set(&mut third_param, "cookie", jstr(result.cookie.as_str()));
    obj_set(&mut third_param, "local_data", jstr(result.local_storage.as_str()));
    let mut params = empty_object();
    obj_set(&mut params, "third_id", jstr(result.third_id.as_str()));
    obj_set(&mut params, "sec_uid", jstr(result.sec_uid.as_str()));
    obj_set(&mut params, "third_param", third_param);
    proof {
        let s = seq![
            ("third_id"@, JsonTree::Str(result.third_id@)),
            ("sec_uid"@, JsonTree::Str(result.sec_uid@)),
            ("third_param"@, third_param_json(result.request_headers@, result.cookie@, result.local_storage@)),
        ];
        crate::publish_strategy::lemma_object_of_steps(s);
    }
    let nickname = if !result.nickname.as_str().is_empty() {
        result.nickname.clone()
    } else {
        get_platform_name(platform).concat("用户")
    };
    let id = match account_id {
        Some(a) => a,
        None => new_id,
    };
    UserAccount {
        id,
        username: nickname.clone(),
        nickname,
        avatar_url: result.avatar_url.clone(),
        platform: platform_or_douyin(platform),
        params: to_json_string(&params),
        status: AccountStatus::Active,
        created_at: now,
    }
}

// ---------------------------------------------------------------------------
// A new publication task
// ---------------------------------------------------------------------------

/// The text of `s` up to its `n`-th UTF-8 byte.
pub open spec fn byte_prefix(s: Seq<char>, n: int) -> Seq<char> {
    decode_utf8(encode_utf8(s).subrange(0, n))
}

/// The name shown for an account of a new task: its stored nickname, else
/// `账号` and the first eight bytes of its id.
pub open spec fn detail_account_name(account_id: Seq<char>, nickname: Option<String>) -> Seq<char> {
    match nickname {
        Some(n) => n@,
        None => "账号"@ + byte_prefix(account_id, 8),
    }
}

/// `d` is the new detail for the `i`-th account of task `task_id`.
pub open spec fn is_new_detail(d: PublicationAccountDetail, task_id: Seq<char>, now: Seq<char>, account_id: Seq<char>,
    platform: Option<Seq<char>>, detail_id: Seq<char>, nickname: Option<String>) -> bool {
    &&& d.id@ == detail_id
    &&& d.publication_task_id@ == task_id
    &&& d.account_id@ == account_id
    &&& d.account_name@ == detail_account_name(account_id, nickname)
    &&& d.platform == (match platform { Some(p) => match platform_with_id(p) { Some(t) => t, None => PlatformType::Douyin },
        None => PlatformType::Douyin })
    &&& d.status == PublicationStatus::Draft
    &&& d.created_at@ == now
    &&& d.published_at is None
    &&& d.publish_url is None
    &&& d.stats == (PublicationStats { comments: 0, likes: 0, favorites: 0, shares: 0 })
    &&& d.message is None
    &&& d.item_id is None
}

/// The hashtags of all accounts, one list after the other.
pub open spec fn flat_tags(h: Seq<Vec<String>>) -> Seq<Seq<char>>
    decreases h.len(),
{
    if h.len() == 0 { Seq::empty() } else { flat_tags(h.drop_last()) + h.last()@.map_values(|t: String| t@) }
}

fn account_name(account_id: &String, nickname: Option<String>) -> (r: String)
    requires
        nickname is None ==> is_char_boundary(encode_utf8(account_id@), 8),
    ensures
        r@ == detail_account_name(account_id@, nickname),
{
    match nickname {
        Some(n) => n,
        None => {
            let (head, _) = account_id.as_str().split_at(8);
            proof {
                vstd::utf8::encode_utf8_decode_utf8(head@);
            }
            String::from_str("账号").concat(head)
        },
    }
}

/// A new draft task and its accounts' details. Each account has the
/// platform given at its position (Douyin when none or unknown), the given
/// detail id, and its stored nickname as its name (else `账号` and the first
/// eight bytes of its id, which must end on a character). The task keeps the
/// hashtags of all accounts, one list after the other.
pub fn new_publication_task(task_id: String, now: String, title: &str, description: &str, video_path: &str,
    cover_path: Option<String>, account_ids: &Vec<String>, platforms: &Vec<String>, hashtags: Vec<Vec<String>>,
    detail_ids: Vec<String>, nicknames: Vec<Option<String>>) -> (r: (PublicationTask, PublicationTaskWithAccounts))
    requires
        detail_ids.len() == account_ids.len(),
        nicknames.len() == account_ids.len(),
        forall|i: int| 0 <= i < account_ids.len() && nicknames@[i] is None
            ==> is_char_boundary(encode_utf8(#[trigger] account_ids@[i]@), 8),
    ensures
        r.0.id == task_id && r.0.title@ == title@ && (r.0.description matches Some(d) && d@ == description@)
            && r.0.video_path@ == video_path@ && r.0.cover_path == cover_path
            && r.0.hashtags@.map_values(|t: String| t@) == flat_tags(hashtags@)
            && r.0.status == PublicationStatus::Draft && r.0.created_at == now && r.0.published_at is None,
        r.1.id == task_id && r.1.title@ == title@ && r.1.description@ == description@ && r.1.video_path@ == video_path@
            && r.1.cover_path@ == or_empty(cover_path)
            && r.1.hashtags@.map_values(|t: String| t@) == flat_tags(hashtags@)
            && r.1.status == PublicationStatus::Draft && r.1.created_at == now && r.1.published_at@.len() == 0,
        r.1.accounts.len() == account_ids.len(),
        forall|i: int| 0 <= i < account_ids.len() ==> is_new_detail(#[trigger] r.1.accounts@[i], task_id@, now@,
            account_ids@[i]@, if i < platforms.len() { Some(platforms@[i]@) } else { None }, detail_ids@[i]@,
            nicknames@[i]),
{
    let mut tags: Vec<String> = Vec::new();
    let mut k: usize = 0;
    while k < hashtags.len()
        invariant
            k <= hashtags.len(),
            tags@.map_values(|t: String| t@) == flat_tags(hashtags@.subrange(0, k as int)),
        decreases hashtags.len() - k,
    {
        let ghost before = tags@;
        let mut j: usize = 0;
        while j < hashtags[k].len()
            invariant
                k < hashtags.len(),
                j <= hashtags@[k as int].len(),
                tags@.map_values(|t: String| t@) == flat_tags(hashtags@.subrange(0, k as int))
                    + hashtags@[k as int]@.subrange(0, j as int).map_values(|t: String| t@),
            decreases hashtags@[k as int].len() - j,
        {
            let ghost old_tags = tags@;
            let t = hashtags[k][j].clone();
            assert(t@ == hashtags@[k as int]@[j as int]@);
            tags.push(t);
            proof {
                let h = hashtags@[k as int]@;
                assert(h.subrange(0, j + 1).map_values(|t: String| t@)
                    =~= h.subrange(0, j as int).map_values(|t: String| t@).push(h[j as int]@));
                assert(tags@.map_values(|t: String| t@) =~= old_tags.map_values(|t: String| t@).push(h[j as int]@));
            }
            j = j + 1;
            assert(tags@.map_values(|t: String| t@) =~= flat_tags(hashtags@.subrange(0, k as int))
                + hashtags@[k as int]@.subrange(0, j as int).map_values(|t: String| t@));
        }
        proof {
            let hs = hashtags@.subrange(0, k + 1);
            assert(hs.drop_last() == hashtags@.subrange(0, k as int));
            assert(hs.last() == hashtags@[k as int]);
            assert(hashtags@[k as int]@.subrange(0, j as int) == hashtags@[k as int]@);
        }
        k = k + 1;
    }
    assert(hashtags@.subrange(0, hashtags.len() as int) == hashtags@);
    let mut details: Vec<PublicationAccountDetail> = Vec::new();
    let mut ids = detail_ids;
    let mut names = nicknames;
    let ghost ids0 = ids@;
    let ghost names0 = names@;
    let mut i: usize = 0;
    while i < account_ids.len()
        invariant
            i <= account_ids.len(),
            ids0.len() == account_ids.len(),
            names0.len() == account_ids.len(),
            ids@ == ids0.subrange(i as int, ids0.len() as int),
            names@ == names0.subrange(i as int, names0.len() as int),
            forall|m: int| 0 <= m < account_ids.len() && names0[m] is None
                ==> is_char_boundary(encode_utf8(#[trigger] account_ids@[m]@), 8),
            details.len() == i,
            forall|m: int| 0 <= m < i ==> is_new_detail(#[trigger] details@[m], task_id@, now@,
                account_ids@[m]@, if m < platforms.len() { Some(platforms@[m]@) } else { None }, ids0[m]@,
                names0[m]),
        decreases account_ids.len() - i,
    {
        let detail_id = ids.remove(0);
        let nickname = names.remove(0);
        assert(detail_id == ids0[i as int]);
        assert(nickname == names0[i as int]);
        let platform = if i < platforms.len() { platform_or_douyin(platforms[i].as_str()) } else { PlatformType::Douyin };
        let name = account_name(&account_ids[i], nickname);
        let d = PublicationAccountDetail {
            id: detail_id,
            publication_task_id: task_id.clone(),
            account_id: account_ids[i].clone(),
            account_name: name,
            platform,
            status: PublicationStatus::Draft,
            created_at: now.clone(),
            published_at: None,
            publish_url: None,
            stats: PublicationStats { comments: 0, likes: 0, favorites: 0, shares: 0 },
            message: None,
            item_id: None,
        };
        details.push(d);
        assert(ids@ =~= ids0.subrange(i + 1, ids0.len() as int));
        assert(names@ =~= names0.subrange(i + 1, names0.len() as int));
        i = i + 1;
    }
    let tags2 = copy_strings(&tags);
    let cover_text = match &cover_path { Some(c) => c.clone(), None => String::new() };
    let task = PublicationTask {
        id: task_id.clone(),
        title: String::from_str(title),
        description: Some(String::from_str(description)),
        video_path: String::from_str(video_path),
        cover_path,
        hashtags: tags,
        status: PublicationStatus::Draft,
        created_at: now.clone(),
        published_at: None,
    };
    let view = PublicationTaskWithAccounts {
        id: task_id,
        title: String::from_str(title),
        description: String::from_str(description),
        video_path: String::from_str(video_path),
        cover_path: cover_text,
        hashtags: tags2,
        status: PublicationStatus::Draft,
        created_at: now,
        published_at: String::new(),
        accounts: details,
    };
    (task, view)
}

/// A stored task shown with no account details: missing texts are empty.
pub fn task_without_accounts(task: PublicationTask) -> (r: PublicationTaskWithAccounts)
    ensures
        r.id == task.id && r.title == task.title && r.description@ == or_empty(task.description)
            && r.video_path == task.video_path && r.cover_path@ == or_empty(task.cover_path)
            && r.hashtags == task.hashtags && r.status == task.status && r.created_at == task.created_at
            && r.published_at@ == or_empty(task.published_at) && r.accounts@.len() == 0,
{
    PublicationTaskWithAccounts {
        id: task.id,
        title: task.title,
        description: unwrap_or_empty(task.description),
        video_path: task.video_path,
        cover_path: unwrap_or_empty(task.cover_path),
        hashtags: task.hashtags,
        status: task.status,
        created_at: task.created_at,
        published_at: unwrap_or_empty(task.published_at),
        accounts: Vec::new(),
    }
}

// ---------------------------------------------------------------------------
// File selection
// ---------------------------------------------------------------------------

/// The request the front end turns into a file dialog.
pub open spec fn file_dialog_request(title: Seq<char>, extensions: Seq<Seq<char>>) -> Seq<char> {
    "FILE_DIALOG:"@ + title + ":"@ + join_with(extensions, ","@)
}

/// Asks the front end for a file dialog with the given title and extensions.
pub fn select_file(title: &str, filter_extensions: Option<Vec<String>>) -> (r: Option<String>)
    ensures
        r matches Some(t) && t@ == file_dialog_request(title@, match filter_extensions {
            Some(v) => v@.map_values(|e: String| e@), None => Seq::empty() }),
{
    let exts = match filter_extensions { Some(v) => v, None => Vec::new() };
    let mut parts: Vec<Vec<char>> = Vec::new();
    let mut i: usize = 0;
    while i < exts.len()
        invariant
            i <= exts.len(),
            parts@.map_values(|x: Vec<char>| x@) == exts@.subrange(0, i as int).map_values(|e: String| e@),
        decreases exts.len() - i,
    {
        let ghost old_parts = parts@;
        let c = chars_of(exts[i].as_str());
        parts.push(c);
        proof {
            assert(parts@.map_values(|x: Vec<char>| x@) =~= old_parts.map_values(|x: Vec<char>| x@).push(exts@[i as int]@));
            assert(exts@.subrange(0, i + 1).map_values(|e: String| e@)
                =~= exts@.subrange(0, i as int).map_values(|e: String| e@).push(exts@[i as int]@));
        }
        i = i + 1;
        assert(parts@.map_values(|x: Vec<char>| x@) =~= exts@.subrange(0, i as int).map_values(|e: String| e@));
    }
    assert(exts@.subrange(0, exts.len() as int) == exts@);
    let comma = chars_of(",");
    let joined = join_chars(&parts, comma.as_slice());
    let mut out: Vec<char> = Vec::new();
    push_str(&mut out, "FILE_DIALOG:");
    push_str(&mut out, title);
    push_str(&mut out, ":");
    push_chars(&mut out, joined.as_slice());
    Some(string_of(out.as_slice()))
}

/// One extension named in a dialog filter: trimmed, without leading dots.
pub open spec fn filter_part(p: Seq<char>) -> Seq<char> {
    trim_prefix_all(trimmed(p), "."@)
}

/// The non-empty extensions named by comma separated parts.
pub open spec fn filter_parts(ps: Seq<Seq<char>>) -> Seq<Seq<char>>
    decreases ps.len(),
{
    if ps.len() == 0 {
        Seq::empty()
    } else {
        let e = filter_part(ps.last());
        if e.len() > 0 { filter_parts(ps.drop_last()).push(e) } else { filter_parts(ps.drop_last()) }
    }
}

/// The extensions named by dialog filters (each a comma separated list).
pub open spec fn filter_extensions(fs: Seq<Seq<char>>) -> Seq<Seq<char>>
    decreases fs.len(),
{
    if fs.len() == 0 { Seq::empty() } else { filter_extensions(fs.drop_last()) + filter_parts(split_char(fs.last(), ',')) }
}

fn parts_extensions(parts: &Vec<Vec<char>>, out: &mut Vec<String>)
    ensures
        final(out)@.map_values(|e: String| e@) == old(out)@.map_values(|e: String| e@)
            + filter_parts(parts@.map_values(|x: Vec<char>| x@)),
{
    let ghost ps = parts@.map_values(|x: Vec<char>| x@);
    let ghost start = out@.map_values(|e: String| e@);
    let dot = chars_of(".");
    let mut i: usize = 0;
    while i < parts.len()
        invariant
            i <= parts.len(),
            ps == parts@.map_values(|x: Vec<char>| x@),
            dot@ == "."@,
            out@.map_values(|e: String| e@) == start + filter_parts(ps.subrange(0, i as int)),
        decreases parts.len() - i,
    {
        let t = trim_chars(parts[i].as_slice());
        let e = trim_prefix_all_exec(t.as_slice(), dot.as_slice());
        proof {
            let q = ps.subrange(0, i + 1);
            assert(q.drop_last() == ps.subrange(0, i as int));
            assert(q.last() == parts@[i as int]@);
        }
        if e.len() > 0 {
            let ghost before = out@;
            out.push(string_of(e.as_slice()));
            assert(out@.map_values(|x: String| x@) =~= before.map_values(|x: String| x@).push(e@));
        }
        i = i + 1;
    }
    assert(ps.subrange(0, parts.len() as int) == ps);
}

/// The extensions a file dialog filters on, from the filters given.
pub fn dialog_filter_extensions(filters: &Vec<String>) -> (r: Vec<String>)
    ensures
        r@.map_values(|e: String| e@) == filter_extensions(filters@.map_values(|f: String| f@)),
{
    let ghost fs = filters@.map_values(|f: String| f@);
    let mut out: Vec<String> = Vec::new();
    let mut i: usize = 0;
    assert(out@.map_values(|e: String| e@) =~= Seq::<Seq<char>>::empty());
    while i < filters.len()
        invariant
            i <= filters.len(),
            fs == filters@.map_values(|f: String| f@),
            out@.map_values(|e: String| e@) == filter_extensions(fs.subrange(0, i as int)),
        decreases filters.len() - i,
    {
        let c = chars_of(filters[i].as_str());
        let parts = split_char_exec(c.as_slice(), ',');
        parts_extensions(&parts, &mut out);
        proof {
            let q = fs.subrange(0, i + 1);
            assert(q.drop_last() == fs.subrange(0, i as int));
            assert(q.last() == filters@[i as int]@);
        }
        i = i + 1;
    }
    assert(fs.subrange(0, filters.len() as int) == fs);
    out
}

/// A file chosen in a dialog.
pub struct FileSelectionResult {
    pub path: String,
    pub name: String,
}

/// A file chosen in a dialog, with its content for a preview.
pub struct FileSelectionWithContentResult {
    pub path: String,
    pub name: String,
    /// The content in standard Base64.
    pub content: String,
    pub mime_type: String,
}

/// The extensions offered for a kind of file (`video`, `image`, or any).
pub open spec fn dialog_extensions(file_type: Seq<char>) -> Seq<Seq<char>> {
    if file_type == "video"@ {
        seq!["mp4"@, "mov"@, "avi"@, "mkv"@, "webm"@, "3gp"@, "m4v"@, "wmv"@]
    } else if file_type == "image"@ {
        seq!["png"@, "jpg"@, "jpeg"@, "webp"@, "gif"@, "bmp"@, "tiff"@, "heic"@]
    } else {
        seq!["*"@]
    }
}

/// The extensions offered for a kind of file.
pub fn extensions_for(file_type: &str) -> (r: Vec<String>)
    ensures
        r@.map_values(|e: String| e@) == dialog_extensions(file_type@),
{
    let mut v: Vec<String> = Vec::new();
    if str_eq(file_type, "video") {
        v.push(String::from_str("mp4"));
        v.push(String::from_str("mov"));
        v.push(String::from_str("avi"));
        v.push(String::from_str("mkv"));
        v.push(String::from_str("webm"));
        v.push(String::from_str("3gp"));
        v.push(String::from_str("m4v"));
        v.push(String::from_str("wmv"));
    } else if str_eq(file_type, "image") {
        v.push(String::from_str("png"));
        v.push(String::from_str("jpg"));
        v.push(String::from_str("jpeg"));
        v.push(String::from_str("webp"));
        v.push(String::from_str("gif"));
        v.push(String::from_str("bmp"));
        v.push(String::from_str("tiff"));
        v.push(String::from_str("heic"));
    } else {
        v.push(String::from_str("*"));
    }
    assert(v@.map_values(|e: String| e@) =~= dialog_extensions(file_type@));
    v
}

/// The file name of a path split at `/`: the last piece that is neither
/// empty nor `.`; none when there is none or it is `..`.
pub open spec fn path_file_name(pieces: Seq<Seq<char>>) -> Option<Seq<char>>
    decreases pieces.len(),
{
    if pieces.len() == 0 {
        None
    } else {
        let s = pieces.last();
        if s.len() == 0 || s == "."@ {
            path_file_name(pieces.drop_last())
        } else if s == ".."@ {
            None
        } else {
            Some(s)
        }
    }
}

/// The index of the last `.` in `n`, or -1 when there is none.
pub open spec fn last_dot(n: Seq<char>) -> int
    decreases n.len(),
{
    if n.len() == 0 { -1 } else if n.last() == '.' { n.len() - 1 } else { last_dot(n.drop_last()) }
}

/// The extension of a path, as `Path::extension` finds it: what follows the
/// last dot of the file name; none without a file name, without a dot, or
/// when the only dot leads the name.
pub open spec fn spec_path_extension(path: Seq<char>) -> Option<Seq<char>> {
    match path_file_name(crate::chars::split_char(path, '/')) {
        None => None,
        Some(n) => {
            let i = last_dot(n);
            if i <= 0 { None } else { Some(n.subrange(i + 1, n.len() as int)) }
        },
    }
}

/// Reads the extension of a path with `std::path::Path::extension`.
///
/// Trusted: the result is the extension `spec_path_extension` describes
/// (`Path::extension` on the Unix path syntax: `/` separates components,
/// empty and `.` components are skipped); an extension that is not valid
/// UTF-8 cannot occur in a `&str` path, so it is always returned as text
/// when present.
#[verifier::external_body]
fn path_extension(path: &str) -> (r: Option<String>)
    ensures
        opt_text(r) == spec_path_extension(path@),
{
    match std::path::Path::new(path).extension() {
        Some(e) => match e.to_str() {
            Some(t) => Some(t.to_string()),
            None => None,
        },
        None => None,
    }
}

/// The MIME type of a video file extension (lowercase).
pub open spec fn video_mime(ext: Seq<char>) -> Seq<char> {
    if ext == "mp4"@ { "video/mp4"@ } else if ext == "mov"@ { "video/quicktime"@ } else if ext == "avi"@ { "video/x-msvideo"@ } else if ext == "mkv"@ { "video/x-matroska"@ } else if ext == "webm"@ { "video/webm"@ } else if ext == "3gp"@ { "video/3gpp"@ } else if ext == "m4v"@ { "video/x-m4v"@ } else if ext == "wmv"@ { "video/x-ms-wmv"@ } else { "application/octet-stream"@ }
}

/// The MIME type of an image file extension (lowercase).
pub open spec fn image_mime(ext: Seq<char>) -> Seq<char> {
    if ext == "png"@ { "image/png"@ } else if ext == "jpg"@ { "image/jpeg"@ } else if ext == "jpeg"@ { "image/jpeg"@ } else if ext == "webp"@ { "image/webp"@ } else if ext == "gif"@ { "image/gif"@ } else if ext == "bmp"@ { "image/bmp"@ } else if ext == "tiff"@ { "image/tiff"@ } else if ext == "tif"@ { "image/tiff"@ } else if ext == "heic"@ { "image/heic"@ } else { "application/octet-stream"@ }
}

/// The MIME type of a chosen file of a kind: by its lowercase extension for
/// videos and images, a generic binary type otherwise.
pub open spec fn mime_type_of(file_type: Seq<char>, path: Seq<char>) -> Seq<char> {
    let ext = spec_to_lowercase(match spec_path_extension(path) { Some(e) => e, None => Seq::empty() });
    if file_type == "video"@ {
        video_mime(ext)
    } else if file_type == "image"@ {
        image_mime(ext)
    } else {
        "application/octet-stream"@
    }
}

fn video_mime_exec(ext: &str) -> (r: String)
    ensures
        r@ == video_mime(ext@),
{
    if str_eq(ext, "mp4") { String::from_str("video/mp4") } else if str_eq(ext, "mov") { String::from_str("video/quicktime") } else if str_eq(ext, "avi") { String::from_str("video/x-msvideo") } else if str_eq(ext, "mkv") { String::from_str("video/x-matroska") } else if str_eq(ext, "webm") { String::from_str("video/webm") } else if str_eq(ext, "3gp") { String::from_str("video/3gpp") } else if str_eq(ext, "m4v") { String::from_str("video/x-m4v") } else if str_eq(ext, "wmv") { String::from_str("video/x-ms-wmv") } else { String::from_str("application/octet-stream") }
}

fn image_mime_exec(ext: &str) -> (r: String)
    ensures
        r@ == image_mime(ext@),
{
    if str_eq(ext, "png") { String::from_str("image/png") } else if str_eq(ext, "jpg") { String::from_str("image/jpeg") } else if str_eq(ext, "jpeg") { String::from_str("image/jpeg") } else if str_eq(ext, "webp") { String::from_str("image/webp") } else if str_eq(ext, "gif") { String::from_str("image/gif") } else if str_eq(ext, "bmp") { String::from_str("image/bmp") } else if str_eq(ext, "tiff") { String::from_str("image/tiff") } else if str_eq(ext, "tif") { String::from_str("image/tiff") } else if str_eq(ext, "heic") { String::from_str("image/heic") } else { String::from_str("application/octet-stream") }
}

/// The MIME type of a chosen file.
pub fn mime_type_for(file_type: &str, path: &str) -> (r: String)
    ensures
        r@ == mime_type_of(file_type@, path@),
{
    let e = match path_extension(path) {
        Some(e) => e,
        None => String::new(),
    };
    let ext = to_lowercase(e.as_str());
    if str_eq(file_type, "video") {
        video_mime_exec(ext.as_str())
    } else if str_eq(file_type, "image") {
        image_mime_exec(ext.as_str())
    } else {
        String::from_str("application/octet-stream")
    }
}

/// The Base64 alphabet.
pub open spec fn b64_alphabet() -> Seq<char> {
    "ABCDEFGHIJKLMNOPQRSTUVWXYZabcdefghijklmnopqrstuvwxyz0123456789+/"@
}

/// Standard Base64 with padding: each three bytes become four characters
/// of six bits each; a last group of one or two bytes is padded with `=`.
pub open spec fn base64_text(b: Seq<u8>) -> Seq<char>
    decreases b.len(),
{
    let a = b64_alphabet();
    if b.len() == 0 {
        Seq::empty()
    } else if b.len() == 1 {
        seq![a[(b[0] / 4) as int], a[((b[0] % 4) * 16) as int], '=', '=']
    } else if b.len() == 2 {
        seq![a[(b[0] / 4) as int], a[((b[0] % 4) * 16 + b[1] / 16) as int], a[((b[1] % 16) * 4) as int], '=']
    } else {
        seq![a[(b[0] / 4) as int], a[((b[0] % 4) * 16 + b[1] / 16) as int],
            a[((b[1] % 16) * 4 + b[2] / 64) as int], a[(b[2] % 64) as int]] + base64_text(b.subrange(3, b.len() as int))
    }
}

/// Encodes bytes with the `base64` crate's standard engine.
///
/// Trusted: the standard engine encodes with the alphabet above and pads,
/// as `base64_text` states.
#[verifier::external_body]
fn base64_encode(bytes: &[u8]) -> (r: String)
    ensures
        r@ == base64_text(bytes@),
{
    base64::Engine::encode(&base64::engine::general_purpose::STANDARD, bytes)
}

/// A chosen file of a kind, read as `bytes`: its path, name, Base64 content
/// and MIME type.
pub fn file_with_content(path: String, name: String, file_type: &str, bytes: &[u8]) -> (r: FileSelectionWithContentResult)
    ensures
        r.path == path,
        r.name == name,
        r.content@ == base64_text(bytes@),
        r.mime_type@ == mime_type_of(file_type@, path@),
{
    let mime_type = mime_type_for(file_type, path.as_str());
    let content = base64_encode(bytes);
    FileSelectionWithContentResult { path, name, content, mime_type }
}

/// Every platform offered is recognized by its id, under the name offered.
pub proof fn law_offered_platforms_named(i: int)
    requires
        0 <= i < offered_platforms().len(),
    ensures
        platform_with_id(offered_platforms()[i].0) is Some,
        platform_name_of(offered_platforms()[i].0) == offered_platforms()[i].1,
{
    reveal_strlit("douyin");
    reveal_strlit("xiaohongshu");
    reveal_strlit("kuaishou");
    reveal_strlit("bilibili");
    assert("bilibili"@ != "kuaishou"@) by { assert("bilibili"@[0] != "kuaishou"@[0]); }
    let o = offered_platforms();
    assert(o[1].0 == "xiaohongshu"@ && o[2].0 == "kuaishou"@ && o[3].0 == "bilibili"@);
    assert("douyin"@.len() == 6 && "xiaohongshu"@.len() == 11 && "kuaishou"@.len() == 8 && "bilibili"@.len() == 8);
    if i == 0 {
        assert(platform_with_id(o[0].0) == Some(PlatformType::Douyin));
    } else if i == 1 {
        assert(platform_with_id(o[1].0) == Some(PlatformType::Xiaohongshu));
    } else if i == 2 {
        assert(platform_with_id(o[2].0) == Some(PlatformType::Kuaishou));
    } else {
        assert(platform_with_id(o[3].0) == Some(PlatformType::Bilibili));
    }
}

/// Base64 text has four characters for every three bytes begun.
pub proof fn law_base64_length(b: Seq<u8>)
    ensures
        base64_text(b).len() == 4 * ((b.len() + 2) / 3),
    decreases b.len(),
{
    if b.len() >= 3 {
        law_base64_length(b.subrange(3, b.len() as int));
        assert((b.len() + 2) / 3 == (b.len() - 3 + 2) / 3 + 1);
    }
}

} // verus!
