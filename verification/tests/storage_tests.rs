use auto_matrix_manager::storage::{default_configs, extractor_config_json, new_extractor_config, task_status_update};
use auto_matrix_manager::model::{PublicationStatus, parse_platform, parse_publication_status, parse_status,
    PlatformType, AccountStatus};
use auto_matrix_manager::json::to_json_string;

#[test]
fn the_default_configuration_is_douyins() {
    let v = default_configs();
    assert_eq!(v.len(), 1);
    assert_eq!(v[0].id, "config_douyin");
    assert_eq!(v[0].login_success_pattern, "**/creator-micro/**");
    let expected = [
        r#"{"cookie":{"api_path":"/account/api/v1/user/account/info","header_name":"cookie","source":"from_api"},"#,
        r#""local_storage":["security-sdk/s_sdk_cert_key","security-sdk/s_sdk_crypt_sdk","security-sdk/s_sdk_pri_key","security-sdk/s_sdk_pub_key"],"#,
        r#""request_headers":{"cookie":"${api:/account/api/v1/user/account/info:request:headers:cookie}"},"#,
        r#""user_info":{"avatar_url":"${api:/web/api/media/user/info:response:body:user:avatar_thumb:url_list:0}","#,
        r#""nickname":"${api:/web/api/media/user/info:response:body:user:nickname}","#,
        r#""sec_uid":"${api:/web/api/media/user/info:response:body:user:sec_uid}","#,
        r#""third_id":"${api:/account/api/v1/user/account/info:response:body:user:uid}"}}"#,
    ].join("");
    assert_eq!(v[0].extract_rules, expected);
}

#[test]
fn saved_configurations_need_json_rules() {
    assert!(new_extractor_config("x", "X", "u", "p", None, "{", "now".to_string()).err().unwrap().starts_with("Invalid extract_rules JSON: "));
    let c = new_extractor_config("x", "X", "u", "p", None, r#"{"a":1}"#, "now".to_string()).ok().unwrap();
    assert_eq!(c.id, "config_x");
    assert!(!c.is_default);
    assert_eq!(to_json_string(&extractor_config_json(&c)),
        r#"{"created_at":"now","extract_rules":{"a":1},"id":"config_x","is_default":false,"login_success_pattern":"p","login_url":"u","platform_id":"x","platform_name":"X","redirect_url":null,"updated_at":"now"}"#);
}

#[test]
fn task_status_follows_its_accounts() {
    assert_eq!(task_status_update(&vec![]), None);
    assert_eq!(task_status_update(&vec!["Completed".to_string(), "Failed".to_string()]), Some(PublicationStatus::Completed));
    assert_eq!(task_status_update(&vec!["Draft".to_string(), "PUBLISHING".to_string()]), Some(PublicationStatus::Publishing));
    assert_eq!(task_status_update(&vec!["completed".to_string()]), Some(PublicationStatus::Completed));
}

#[test]
fn stored_names_read_back() {
    for p in [PlatformType::Douyin, PlatformType::Xiaohongshu, PlatformType::Kuaishou, PlatformType::Bilibili] {
        assert_eq!(parse_platform(&p.name()), p);
    }
    for s in [PublicationStatus::Draft, PublicationStatus::Publishing, PublicationStatus::Completed, PublicationStatus::Failed] {
        assert_eq!(parse_publication_status(&s.name()), s);
    }
    for s in [AccountStatus::Active, AccountStatus::Expired, AccountStatus::Pending] {
        assert_eq!(parse_status(&s.name()), s);
    }
    assert_eq!(parse_platform("unknown"), PlatformType::Douyin);
}

#[test]
fn retry_takes_drafts_and_failures() {
    assert!(auto_matrix_manager::model::needs_retry(&PublicationStatus::Draft));
    assert!(auto_matrix_manager::model::needs_retry(&PublicationStatus::Failed));
    assert!(!auto_matrix_manager::model::needs_retry(&PublicationStatus::Completed));
    assert!(!auto_matrix_manager::model::needs_retry(&PublicationStatus::Publishing));
}
