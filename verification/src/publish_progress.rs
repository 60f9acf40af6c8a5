//! The progress events of a publication, as the front end receives them:
//! each stage with its message and percentage.

use vstd::prelude::*;
use crate::chars::{string_of, push_str};
use crate::numfmt::{dec_int, push_dec_i64};

verus! {

/// The stage a publication is at.
#[derive(PartialEq, Eq, Structural, Clone, Copy, Debug)]
pub enum ProgressStatus {
    Starting,
    UploadingVideo,
    GettingTicket,
    Publishing,
    Completed,
    Failed,
}

/// A progress event of one account's publication.
pub struct PublishProgressEvent {
    pub task_id: String,
    pub detail_id: String,
    pub account_id: String,
    pub platform: String,
    pub status: ProgressStatus,
    pub message: String,
    pub progress: i32,
    /// Unix milliseconds.
    pub timestamp: i64,
}

/// The event identifies the task, detail, account and platform, at `timestamp`.
pub open spec fn event_of(e: PublishProgressEvent, task_id: Seq<char>, detail_id: Seq<char>, account_id: Seq<char>,
    platform: Seq<char>, timestamp: i64) -> bool {
    e.task_id@ == task_id && e.detail_id@ == detail_id && e.account_id@ == account_id && e.platform@ == platform
        && e.timestamp == timestamp
}

/// `prefix` followed by the percentage and `%`.
pub open spec fn percent_message(prefix: Seq<char>, progress: i32) -> Seq<char> {
    prefix + dec_int(progress as int) + "%"@
}

fn percent_text(prefix: &str, progress: i32) -> (r: String)
    ensures
        r@ == percent_message(prefix@, progress),
{
    let mut out: Vec<char> = Vec::new();
    push_str(&mut out, prefix);
    push_dec_i64(&mut out, progress as i64);
    push_str(&mut out, "%");
    string_of(out.as_slice())
}

fn event(task_id: &str, detail_id: &str, account_id: &str, platform: &str, status: ProgressStatus, message: String,
    progress: i32, timestamp: i64) -> (r: PublishProgressEvent)
    ensures
        event_of(r, task_id@, detail_id@, account_id@, platform@, timestamp),
        r.status == status,
        r.message == message,
        r.progress == progress,
{
    PublishProgressEvent {
        task_id: String::from_str(task_id),
        detail_id: String::from_str(detail_id),
        account_id: String::from_str(account_id),
        platform: String::from_str(platform),
        status,
        message,
        progress,
        timestamp,
    }
}

/// The event of a publication starting (`开始发布`, 0%).
pub fn starting_event(task_id: &str, detail_id: &str, account_id: &str, platform: &str, timestamp: i64) -> (r: PublishProgressEvent)
    ensures
        event_of(r, task_id@, detail_id@, account_id@, platform@, timestamp),
        r.status == ProgressStatus::Starting && r.message@ == "开始发布"@ && r.progress == 0,
{
    event(task_id, detail_id, account_id, platform, ProgressStatus::Starting, String::from_str("开始发布"), 0, timestamp)
}

/// The event of the video uploading (`上传视频中... <p>%`).
pub fn uploading_video_event(task_id: &str, detail_id: &str, account_id: &str, platform: &str, progress: i32,
    timestamp: i64) -> (r: PublishProgressEvent)
    ensures
        event_of(r, task_id@, detail_id@, account_id@, platform@, timestamp),
        r.status == ProgressStatus::UploadingVideo && r.message@ == percent_message("上传视频中... "@, progress)
            && r.progress == progress,
{
    event(task_id, detail_id, account_id, platform, ProgressStatus::UploadingVideo, percent_text("上传视频中... ", progress),
        progress, timestamp)
}

/// The event of the publication ticket being obtained (`获取发布凭证... <p>%`).
pub fn getting_ticket_event(task_id: &str, detail_id: &str, account_id: &str, platform: &str, progress: i32,
    timestamp: i64) -> (r: PublishProgressEvent)
    ensures
        event_of(r, task_id@, detail_id@, account_id@, platform@, timestamp),
        r.status == ProgressStatus::GettingTicket && r.message@ == percent_message("获取发布凭证... "@, progress)
            && r.progress == progress,
{
    event(task_id, detail_id, account_id, platform, ProgressStatus::GettingTicket, percent_text("获取发布凭证... ", progress),
        progress, timestamp)
}

/// The event of the publication request (`发布中... <p>%`).
pub fn publishing_event(task_id: &str, detail_id: &str, account_id: &str, platform: &str, progress: i32,
    timestamp: i64) -> (r: PublishProgressEvent)
    ensures
        event_of(r, task_id@, detail_id@, account_id@, platform@, timestamp),
        r.status == ProgressStatus::Publishing && r.message@ == percent_message("发布中... "@, progress)
            && r.progress == progress,
{
    event(task_id, detail_id, account_id, platform, ProgressStatus::Publishing, percent_text("发布中... ", progress),
        progress, timestamp)
}

/// The event of a completed publication (the given message, 100%).
pub fn completed_event(task_id: &str, detail_id: &str, account_id: &str, platform: &str, message: &str,
    timestamp: i64) -> (r: PublishProgressEvent)
    ensures
        event_of(r, task_id@, detail_id@, account_id@, platform@, timestamp),
        r.status == ProgressStatus::Completed && r.message@ == message@ && r.progress == 100,
{
    event(task_id, detail_id, account_id, platform, ProgressStatus::Completed, String::from_str(message), 100, timestamp)
}

/// The event of a failed publication (the error as message, 0%).
pub fn failed_event(task_id: &str, detail_id: &str, account_id: &str, platform: &str, error: &str,
    timestamp: i64) -> (r: PublishProgressEvent)
    ensures
        event_of(r, task_id@, detail_id@, account_id@, platform@, timestamp),
        r.status == ProgressStatus::Failed && r.message@ == error@ && r.progress == 0,
{
    event(task_id, detail_id, account_id, platform, ProgressStatus::Failed, String::from_str(error), 0, timestamp)
}

} // verus!
