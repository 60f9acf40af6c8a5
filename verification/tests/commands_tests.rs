use auto_matrix_manager::commands::{greet, get_supported_platforms, platform_by_id, account_platform, platform_or_douyin,
    get_platform_name, plan_account_publish, finish_account_publish, AccountPublishStep, require_found,
    video_command_request, saved_publication_request, republished, status_of, start_auth_status, check_auth_status,
    save_after_start, save_after_check, browser_account, new_publication_task, task_without_accounts, select_file,
    dialog_filter_extensions, extensions_for, mime_type_for, file_with_content};
use auto_matrix_manager::model::{PlatformType, PublicationStatus, PublicationStats, PublicationTask,
    PublicationAccountDetail, PlatformPublication, PublishResult, PlatformError, AccountStatus};
use auto_matrix_manager::browser::{BrowserAuthResult, BrowserAuthStep};

fn err_of<T>(r: Result<T, String>) -> String {
    match r {
        Ok(_) => panic!("expected an error"),
        Err(e) => e,
    }
}

fn task() -> PublicationTask {
    PublicationTask {
        id: "t1".to_string(),
        title: "Title".to_string(),
        description: Some("Desc".to_string()),
        video_path: "/v.mp4".to_string(),
        cover_path: None,
        hashtags: vec!["a".to_string(), "b".to_string()],
        status: PublicationStatus::Draft,
        created_at: "2024-01-01 00:00:00".to_string(),
        published_at: None,
    }
}

fn detail(status: PublicationStatus, platform: PlatformType) -> PublicationAccountDetail {
    PublicationAccountDetail {
        id: "d1".to_string(),
        publication_task_id: "t1".to_string(),
        account_id: "acc1".to_string(),
        account_name: "n".to_string(),
        platform,
        status,
        created_at: "2024-01-01 00:00:00".to_string(),
        published_at: None,
        publish_url: Some("https://v.douyin.com/x".to_string()),
        stats: PublicationStats::default(),
        message: None,
        item_id: None,
    }
}

#[test]
fn greet_names_the_caller() {
    assert_eq!(greet("Ann"), "Hello, Ann! You've been greeted from Rust!");
}

#[test]
fn offered_platforms_are_the_four_known_ones() {
    let v = get_supported_platforms();
    let ids: Vec<&str> = v.iter().map(|p| p.id.as_str()).collect();
    assert_eq!(ids, vec!["douyin", "xiaohongshu", "kuaishou", "bilibili"]);
    assert_eq!(v[0].name, "抖音");
    assert_eq!(v[1].color, "#FE2C55");
    assert_eq!(v[2].icon, "/src/assets/icons/kuaishu.ico");
    for p in &v {
        assert!(platform_by_id(&p.id).is_some());
        assert_eq!(get_platform_name(&p.id), p.name);
    }
}

#[test]
fn platform_ids_are_matched_exactly() {
    assert_eq!(platform_by_id("kuaishou"), Some(PlatformType::Kuaishou));
    assert_eq!(platform_by_id("Douyin"), None);
    assert_eq!(err_of(account_platform("weibo")), "Unknown platform: weibo");
    assert_eq!(account_platform("bilibili").unwrap(), PlatformType::Bilibili);
    assert_eq!(platform_or_douyin("weibo"), PlatformType::Douyin);
    assert_eq!(get_platform_name("weibo"), "未知");
}

#[test]
fn completed_accounts_are_not_published_again() {
    match plan_account_publish(&task(), &detail(PublicationStatus::Completed, PlatformType::Douyin), false) {
        AccountPublishStep::Finished(r) => {
            assert!(r.success);
            assert_eq!(r.publish_url.as_deref(), Some("https://v.douyin.com/x"));
            assert!(r.error.is_none());
        }
        _ => panic!("expected a finished account"),
    }
}

#[test]
fn missing_accounts_and_other_platforms_fail() {
    match plan_account_publish(&task(), &detail(PublicationStatus::Draft, PlatformType::Douyin), false) {
        AccountPublishStep::Finished(r) => {
            assert!(!r.success);
            assert_eq!(r.error.as_deref(), Some("Account not found"));
        }
        _ => panic!("expected a failure"),
    }
    match plan_account_publish(&task(), &detail(PublicationStatus::Failed, PlatformType::Kuaishou), true) {
        AccountPublishStep::Finished(r) => assert_eq!(r.error.as_deref(), Some("Unsupported platform: Kuaishou")),
        _ => panic!("expected a failure"),
    }
}

#[test]
fn douyin_accounts_get_the_task_request() {
    match plan_account_publish(&task(), &detail(PublicationStatus::Draft, PlatformType::Douyin), true) {
        AccountPublishStep::Publish(req) => {
            assert_eq!(req.account_id, "acc1");
            assert_eq!(req.video_path, "/v.mp4");
            assert_eq!(req.title, "Title");
            assert_eq!(req.description.as_deref(), Some("Desc"));
            assert_eq!(req.hashtag_names, vec!["a".to_string(), "b".to_string()]);
            assert_eq!(req.download_allowed, Some(0));
        }
        _ => panic!("expected a request"),
    }
}

#[test]
fn publish_outcomes_update_the_account() {
    let d = detail(PublicationStatus::Draft, PlatformType::Douyin);
    let ok = PublishResult { success: true, publication_id: "p".to_string(), item_id: Some("123".to_string()), error_message: None };
    let (r, u) = finish_account_publish(&d, Ok(ok));
    assert!(r.success);
    assert_eq!(r.publish_url.as_deref(), Some("https://v.douyin.com/123"));
    let u = u.unwrap();
    assert_eq!(u.status, PublicationStatus::Completed);
    let bad = PublishResult { success: false, publication_id: "p".to_string(), item_id: None, error_message: Some("no".to_string()) };
    let (r, u) = finish_account_publish(&d, Ok(bad));
    assert!(!r.success);
    assert_eq!(r.error.as_deref(), Some("no"));
    assert_eq!(u.unwrap().status, PublicationStatus::Failed);
    let (r, u) = finish_account_publish(&d, Err(PlatformError::NetworkError("down".to_string())));
    assert_eq!(r.error.as_deref(), Some("Network error: down"));
    assert!(u.is_none());
}

#[test]
fn lookups_report_missing_records_and_storage_errors() {
    assert!(require_found(Ok(true), "x").is_ok());
    assert_eq!(err_of(require_found(Ok(false), "Publication not found")), "Publication not found");
    assert_eq!(err_of(require_found(Err("locked".to_string()), "x")), "Database error: locked");
    assert_eq!(err_of(video_command_request("kuaishou", "a", "/v", "t", "d", vec![], Ok(true))), "Unsupported platform: kuaishou");
    assert_eq!(err_of(video_command_request("douyin", "a", "/v", "t", "d", vec![], Ok(false))), "Account not found");
    let req = video_command_request("douyin", "a", "/v", "t", "d", vec!["h".to_string()], Ok(true)).unwrap();
    assert_eq!(req.description.as_deref(), Some("d"));
    assert!(req.cover_path.is_none());
}

#[test]
fn saved_publications_are_published_again() {
    let p = PlatformPublication {
        id: "p1".to_string(), account_id: "a".to_string(), platform: PlatformType::Douyin, title: "t".to_string(),
        description: "d".to_string(), video_path: "/v".to_string(), cover_path: None, status: PublicationStatus::Draft,
        created_at: "c".to_string(), published_at: None, publish_url: None, stats: PublicationStats::default(),
    };
    let req = saved_publication_request(&p).unwrap();
    assert_eq!(req.description.as_deref(), Some("d"));
    assert!(req.hashtag_names.is_empty());
    let r = PublishResult { success: true, publication_id: "x".to_string(), item_id: Some("9".to_string()), error_message: None };
    let q = republished(p, &r, "now".to_string());
    assert_eq!(q.status, PublicationStatus::Completed);
    assert_eq!(q.publish_url.as_deref(), Some("https://v.douyin.com/9"));
    assert_eq!(q.published_at.as_deref(), Some("now"));
}

fn run_result() -> BrowserAuthResult {
    let mut r = BrowserAuthResult::default();
    r.step = BrowserAuthStep::Completed;
    r.cookie = "sid=1".to_string();
    r.nickname = "Bob".to_string();
    r.third_id = "42".to_string();
    r.sec_uid = "S".to_string();
    r.local_storage = "[]".to_string();
    r.request_headers = r#"{"accept":"*/*"}"#.to_string();
    r
}

#[test]
fn browser_status_answers() {
    let r = run_result();
    assert!(save_after_start(&r));
    assert!(!save_after_check(&r, true));
    let s = start_auth_status(&r, Some(Ok("Bob".to_string())));
    assert_eq!(s.step, "Completed");
    assert_eq!(s.message, "授权完成！账号: Bob");
    let s = start_auth_status(&r, Some(Err("disk".to_string())));
    assert_eq!(s.message, "授权完成但保存失败: disk");
    assert_eq!(s.error.as_deref(), Some("disk"));
    assert_eq!(err_of(check_auth_status(&r, false, Some(Err("disk".to_string())))), "保存凭证失败: disk");
    let mut waiting = BrowserAuthResult::default();
    waiting.step = BrowserAuthStep::Failed("x\"y".to_string());
    let s = status_of(&waiting, true);
    assert_eq!(s.step, "Failed(\"x\\\"y\")");
    assert!(s.need_poll);
}

#[test]
fn browser_credentials_become_account_parameters() {
    let r = run_result();
    let a = browser_account(&r, "douyin", None, "new-id".to_string(), "now".to_string());
    assert_eq!(a.id, "new-id");
    assert_eq!(a.nickname, "Bob");
    assert_eq!(a.status, AccountStatus::Active);
    assert_eq!(a.params, r#"{"sec_uid":"S","third_id":"42","third_param":{"accept":"*/*","cookie":"sid=1","local_data":"[]"}}"#);
    let mut unnamed = run_result();
    unnamed.nickname = String::new();
    unnamed.request_headers = "not json".to_string();
    let a = browser_account(&unnamed, "kuaishou", Some("old".to_string()), "new".to_string(), "now".to_string());
    assert_eq!(a.id, "old");
    assert_eq!(a.nickname, "快手用户");
    assert_eq!(a.platform, PlatformType::Kuaishou);
    assert_eq!(a.params, r#"{"sec_uid":"S","third_id":"42","third_param":{"cookie":"sid=1","local_data":"[]"}}"#);
}

#[test]
fn new_tasks_list_their_accounts() {
    let (t, v) = new_publication_task(
        "t9".to_string(), "now".to_string(), "T", "D", "/v.mp4", None,
        &vec!["abcdefghij".to_string(), "k2".to_string()],
        &vec!["xiaohongshu".to_string()],
        vec![vec!["x".to_string()], vec!["y".to_string(), "z".to_string()]],
        vec!["d1".to_string(), "d2".to_string()],
        vec![None, Some("Nick".to_string())],
    );
    assert_eq!(t.hashtags, vec!["x".to_string(), "y".to_string(), "z".to_string()]);
    assert_eq!(t.status, PublicationStatus::Draft);
    assert_eq!(v.accounts.len(), 2);
    assert_eq!(v.accounts[0].account_name, "账号abcdefgh");
    assert_eq!(v.accounts[0].platform, PlatformType::Xiaohongshu);
    assert_eq!(v.accounts[1].account_name, "Nick");
    assert_eq!(v.accounts[1].platform, PlatformType::Douyin);
    assert_eq!(v.cover_path, "");
    let w = task_without_accounts(t);
    assert_eq!(w.description, "D");
    assert!(w.accounts.is_empty());
}

#[test]
fn file_dialog_requests_and_filters() {
    assert_eq!(select_file("Pick", Some(vec!["mp4".to_string(), "mov".to_string()])).unwrap(), "FILE_DIALOG:Pick:mp4,mov");
    assert_eq!(select_file("Pick", None).unwrap(), "FILE_DIALOG:Pick:");
    let e = dialog_filter_extensions(&vec![" .mp4, mov ,".to_string(), "..png".to_string()]);
    assert_eq!(e, vec!["mp4".to_string(), "mov".to_string(), "png".to_string()]);
    assert_eq!(extensions_for("image").len(), 8);
    assert_eq!(extensions_for("other"), vec!["*".to_string()]);
}

#[test]
fn chosen_files_get_their_type_and_content() {
    assert_eq!(mime_type_for("video", "/a/b.MOV"), "video/quicktime");
    assert_eq!(mime_type_for("image", "/a/b.jpeg"), "image/jpeg");
    assert_eq!(mime_type_for("image", "/a/noext"), "application/octet-stream");
    assert_eq!(mime_type_for("other", "/a/b.png"), "application/octet-stream");
    let f = file_with_content("/a/x.png".to_string(), "x.png".to_string(), "image", b"hello!?");
    assert_eq!(f.content, "aGVsbG8hPw==");
    assert_eq!(f.mime_type, "image/png");
}
