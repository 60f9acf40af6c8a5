use auto_matrix_manager::commands::{found_task, TaskPublishRun, plan_account_publish, AccountPublishStep, PublishTaskResult};
use auto_matrix_manager::model::{PlatformType, PublicationStatus, PublicationStats, PublicationTask,
    PublicationAccountDetail, PublicationTaskWithAccounts};
use auto_matrix_manager::video_upload::{upload_mode, UploadMode, VIDEO_MAX_SIZE, apply_upload_params};
use auto_matrix_manager::vod_uploader::{chunk_params, finish_params};
use auto_matrix_manager::douyin_client::{publish_v2_params, publish_v2_headers, challenge_sug_params};
use auto_matrix_manager::douyin_browser::{DouyinBrowser, PageKind};
use auto_matrix_manager::browser::BrowserAuthStep;
use auto_matrix_manager::douyin_utils::past_deadline;
use auto_matrix_manager::text::substr;

fn task() -> PublicationTask {
    PublicationTask {
        id: "t1".to_string(),
        title: "Title".to_string(),
        description: None,
        video_path: "/v.mp4".to_string(),
        cover_path: None,
        hashtags: vec![],
        status: PublicationStatus::Draft,
        created_at: "2024-01-01 00:00:00".to_string(),
        published_at: None,
    }
}

fn detail(id: &str, status: PublicationStatus) -> PublicationAccountDetail {
    PublicationAccountDetail {
        id: id.to_string(),
        publication_task_id: "t1".to_string(),
        account_id: "acc".to_string(),
        account_name: "n".to_string(),
        platform: PlatformType::Douyin,
        status,
        created_at: "2024-01-01 00:00:00".to_string(),
        published_at: None,
        publish_url: Some("https://v.douyin.com/x".to_string()),
        stats: PublicationStats::default(),
        message: None,
        item_id: None,
    }
}

fn with_accounts(accounts: Vec<PublicationAccountDetail>) -> PublicationTaskWithAccounts {
    PublicationTaskWithAccounts {
        id: "t1".to_string(),
        title: "Title".to_string(),
        description: String::new(),
        video_path: "/v.mp4".to_string(),
        cover_path: String::new(),
        hashtags: vec![],
        status: PublicationStatus::Draft,
        created_at: "2024-01-01 00:00:00".to_string(),
        published_at: String::new(),
        accounts,
    }
}

fn keys(v: &[(String, String)]) -> Vec<String> {
    v.iter().map(|p| p.0.clone()).collect()
}

fn all_distinct(v: &[(String, String)]) -> bool {
    let k = keys(v);
    (0..k.len()).all(|i| (i + 1..k.len()).all(|j| k[i] != k[j]))
}

#[test]
fn a_missing_task_is_reported() {
    assert_eq!(found_task::<u32>(None).err().unwrap(), "Task not found");
    assert_eq!(found_task(Some(7u32)).unwrap(), 7);
}

#[test]
fn a_task_run_gives_one_result_per_account_in_order() {
    let t = with_accounts(vec![detail("d1", PublicationStatus::Completed), detail("d2", PublicationStatus::Draft)]);
    let mut run = TaskPublishRun::new(t, task());
    let mut seen = Vec::new();
    while let Some(i) = run.pending() {
        seen.push(i);
        let found = i == 0;
        let r = match plan_account_publish(&run.task, &run.accounts[i], found) {
            AccountPublishStep::Finished(r) => r,
            AccountPublishStep::Publish(_) => PublishTaskResult { success: false, detail_id: String::new(), publish_url: None, error: None },
        };
        run.record(r);
    }
    assert_eq!(seen, vec![0, 1]);
    let results = run.finish();
    assert_eq!(results.len(), 2);
    assert!(results[0].success);
    assert_eq!(results[0].detail_id, "d1");
    assert_eq!(results[1].detail_id, "d2");
    assert_eq!(results[1].error.as_deref(), Some("Account not found"));
}

#[test]
fn upload_size_decides_the_mode() {
    assert_eq!(upload_mode(0).err().unwrap(), "视频文件为空");
    assert!(upload_mode(1) == Ok(UploadMode::Whole));
    assert!(upload_mode(VIDEO_MAX_SIZE) == Ok(UploadMode::Whole));
    assert!(upload_mode(VIDEO_MAX_SIZE + 1) == Ok(UploadMode::Parts));
}

#[test]
fn request_builders_never_repeat_a_key() {
    assert!(all_distinct(&publish_v2_params()));
    assert!(all_distinct(&challenge_sug_params("k")));
    assert!(all_distinct(&apply_upload_params(10, "u", "s")));
    assert!(all_distinct(&chunk_params(1, 0, "id")));
    assert!(all_distinct(&finish_params("id")));
    let ticket = vec![("bd-ticket-guard-version".to_string(), "2".to_string()),
        ("bd-ticket-guard-web-sign-type".to_string(), "0".to_string())];
    let h = publish_v2_headers(&ticket, "tok");
    assert!(all_distinct(&h));
    assert_eq!(keys(&h), vec!["bd-ticket-guard-web-sign-type", "bd-ticket-guard-version", "X-Secsdk-Csrf-Token", "Referer"]);
}

#[test]
fn browser_steps_keep_the_rest_of_the_result() {
    let mut b = DouyinBrowser::new().with_timeout(9);
    b.result.cookie = "c=1".to_string();
    b.result.nickname = "nick".to_string();
    b.begin();
    b.opening_login_page();
    b.waiting_for_login();
    assert!(matches!(b.result.step, BrowserAuthStep::WaitingForLogin));
    assert_eq!(b.result.cookie, "c=1");
    assert_eq!(b.result.nickname, "nick");
    assert_eq!(b.timeout_seconds, 9);
    assert_eq!(b.polled("https://creator.douyin.com/creator-micro/data"), PageKind::CreatorOther);
    assert_eq!(b.result.cookie, "c=1");
    assert_eq!(b.result.current_url, "https://creator.douyin.com/creator-micro/data");
}

#[test]
fn an_old_deadline_has_passed() {
    assert!(past_deadline(0));
    assert!(!past_deadline(u128::MAX));
}

#[test]
fn substr_keeps_the_widest_prefix() {
    assert_eq!(substr("ab中文cd", 0, 4), "ab中");
    assert_eq!(substr("ab中文cd", 0, 3), "ab");
    assert_eq!(substr("abc", 0, 10), "abc");
    assert_eq!(substr("中文", 0, 1), "");
}
