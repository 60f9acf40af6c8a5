use auto_matrix_manager::platform::{DouyinPlatform, DouyinPublisher, PublishStrategyFactory, init_default_strategies};
use auto_matrix_manager::model::{PlatformType, PlatformError, UserAccount, AccountStatus, DatabaseManager, PlatformCredentials};
use auto_matrix_manager::publish_strategy::PublishRequest;
use auto_matrix_manager::douyin_api::BdTicketConfig;
use auto_matrix_manager::json::to_json_string;

fn request() -> PublishRequest {
    PublishRequest {
        account_id: "a1".to_string(), video_path: "/v.mp4".to_string(), cover_path: None, title: "T".to_string(),
        description: None, hashtag_names: vec![], record_id: Some("r".to_string()), third_id: None, params: String::new(),
        download_allowed: None, visibility_type: None, timeout: None, send_time: None, music_info: None, poi_id: None,
        poi_name: None, anchor: None, extra_info: None,
    }
}

fn account(params: &str) -> UserAccount {
    UserAccount {
        id: "a1".to_string(), username: "u".to_string(), nickname: "n".to_string(), avatar_url: String::new(),
        platform: PlatformType::Douyin, params: params.to_string(), status: AccountStatus::Active, created_at: String::new(),
    }
}

fn message(e: PlatformError) -> String {
    e.to_string()
}

#[test]
fn platform_answers_its_fixed_operations() {
    let p = DouyinPlatform::new();
    assert_eq!(p.platform_type(), PlatformType::Douyin);
    assert_eq!(p.platform_name(), "抖音");
    assert_eq!(message(p.authenticate_account().err().unwrap()), "Authentication failed: 浏览器认证需要使用 start_browser_auth 命令");
    assert_eq!(message(p.refresh_credentials("x").err().unwrap()), "Authentication failed: 请重新进行浏览器认证");
    assert_eq!(message(p.get_publication_status("x").err().unwrap()), "Publication failed: 暂不支持获取发布状态");
    assert_eq!(message(p.get_account_stats("x").err().unwrap()), "Publication failed: 暂不支持获取账号统计");
}

#[test]
fn credentials_must_be_complete() {
    let p = DouyinPlatform::new();
    assert_eq!(message(p.get_credentials_from_params("{}").err().unwrap()), "Invalid credentials: 账号参数不完整");
    let c = p.get_credentials_from_params(r#"{"third_id":"9","third_param":{"cookie":"c","user-agent":"UA"}}"#).ok().unwrap();
    assert_eq!(c.third_id, "9");
    assert_eq!(c.user_agent, "UA");
    assert!(c.sec_uid.is_none());
}

#[test]
fn publishing_needs_storage_and_a_user_id() {
    let none = DouyinPlatform::new();
    assert_eq!(message(none.publish_request(request(), Ok(None)).err().unwrap()), "Invalid input: 平台未配置数据库连接");
    let p = DouyinPlatform::with_storage(DatabaseManager::new("/tmp".to_string()));
    assert_eq!(message(p.publish_request(request(), Ok(None)).err().unwrap()), "Invalid input: 账号不存在: a1");
    assert_eq!(message(p.publish_request(request(), Err("Busy".to_string())).err().unwrap()), "Invalid input: 查询账号失败: Busy");
    assert_eq!(message(p.publish_request(request(), Ok(Some(account("{}")))).err().unwrap()), "Invalid input: thirdId不能为空");
    let q = p.publish_request(request(), Ok(Some(account(r#"{"third_id":"77"}"#)))).ok().unwrap();
    assert_eq!(q.third_id.as_deref(), Some("77"));
    assert_eq!(q.params, r#"{"third_id":"77"}"#);
    assert_eq!(q.record_id.as_deref(), Some("r"));
}

#[test]
fn the_registry_holds_each_platform_once() {
    let mut f = PublishStrategyFactory::new();
    assert!(!f.is_supported(PlatformType::Douyin));
    f.register(PlatformType::Douyin);
    f.register(PlatformType::Douyin);
    f.register(PlatformType::Bilibili);
    assert_eq!(f.supported_platforms(), vec![PlatformType::Douyin, PlatformType::Bilibili]);
    assert!(f.get_service(PlatformType::Douyin).is_some());
    assert!(f.get_service(PlatformType::Kuaishou).is_none());
    f.clear();
    assert!(f.supported_platforms().is_empty());
    assert_eq!(init_default_strategies().supported_platforms(), vec![PlatformType::Douyin]);
}

#[test]
fn the_publisher_appends_hashtags_with_byte_ranges() {
    let creds = PlatformCredentials { cookie: String::new(), user_agent: String::new(), third_id: String::new(), sec_uid: None, local_data: vec![] };
    let p = DouyinPublisher::new(account("{}"), creds, BdTicketConfig::default());
    let (caption, records) = p.caption_with_hashtags("说", &vec![("tag".to_string(), "1".to_string()), ("b".to_string(), "2".to_string())]);
    assert_eq!(caption, "说#tag#b");
    assert_eq!(records.len(), 2);
    assert_eq!(to_json_string(&records[0]), r#"{"end":7,"hashtag_id":"1","hashtag_name":"tag","start":3,"type":1,"user_id":""}"#);
    assert_eq!(to_json_string(&records[1]), r#"{"end":9,"hashtag_id":"2","hashtag_name":"b","start":7,"type":1,"user_id":""}"#);
    let data = p.build_publish_data(" T", 1, 0, "vid", &caption, &records, "creation_1");
    let text = to_json_string(&data);
    assert!(text.starts_with(r#"{"item":{"anchor":{},"assistant":{"is_post_assistant":1,"is_preview":0},"common":{"activity":"[]","caption":"说#tag#b","challenges":"[]","creation_id":"creation_1","download":1,"#));
    assert!(text.contains(r#""text":"T 说#tag#b""#));
    assert_eq!(DouyinPublisher::creation_id_at(1700000000123), "creation_1700000000123");
}

#[test]
fn factory_creates_the_douyin_platform() {
    let p = auto_matrix_manager::model::PlatformFactory::create_platform(PlatformType::Douyin);
    assert!(p.platform_type() == PlatformType::Douyin);
    assert!(p.db_manager.is_none());
}
