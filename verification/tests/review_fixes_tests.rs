use auto_matrix_manager::browser::GenericBrowser;
use auto_matrix_manager::commands::mime_type_for;
use auto_matrix_manager::douyin_utils::{a_bogus_from, calculate_a_bogus, calculate_placeholder};
use auto_matrix_manager::extractor_config::{MatchOperator, NumericComparison};
use auto_matrix_manager::model::{DatabaseManager, PlatformFactory, PlatformType};
use auto_matrix_manager::storage::config_deletable;

#[test]
fn signature_falls_back_to_the_placeholder() {
    let q = "device_platform=webapp&aid=6383";
    let ua = "Mozilla/5.0";
    let p = calculate_placeholder(q, ua);
    assert_eq!(p.len(), 32);
    assert!(p.chars().all(|c| c.is_ascii_hexdigit() && !c.is_ascii_uppercase()));
    assert_eq!(a_bogus_from(Err("boom".to_string()), q, ua), p);
    assert_eq!(a_bogus_from(Ok("sig".to_string()), q, ua), "sig");
    assert_eq!(calculate_a_bogus(false, Some("syntax error ("), q, ua), p);
    assert_eq!(calculate_a_bogus(false, Some("function generate_a_bogus(q, u) { return 'ok'; }"), q, ua), p);
    assert_eq!(calculate_a_bogus(true, Some("function generate_a_bogus(q, u) { return 'ok'; }"), q, ua), p);
    assert_eq!(calculate_a_bogus(false, None, q, ua), p);
}

#[test]
fn a_looping_script_is_stopped() {
    let q = "a=1";
    let ua = "UA";
    let r = calculate_a_bogus(false, Some("while (true) {}"), q, ua);
    assert_eq!(r, calculate_placeholder(q, ua));
}

#[test]
fn platform_names_read_in_any_case() {
    for (name, p) in [("Douyin", PlatformType::Douyin), ("XIAOHONGSHU", PlatformType::Xiaohongshu),
        ("Ks", PlatformType::Kuaishou), ("BiLi", PlatformType::Bilibili)] {
        assert!(PlatformFactory::platform_type_from_str(name) == Some(p));
    }
    assert!(PlatformFactory::platform_type_from_str("weibo").is_none());
}

#[test]
fn default_configurations_are_kept() {
    assert!(!config_deletable(Some(1)));
    assert!(config_deletable(Some(0)));
    assert!(config_deletable(None));
}

#[test]
fn the_browser_needs_its_database() {
    let mut b = GenericBrowser::new();
    assert_eq!(b.require_database().err().unwrap(), "数据库管理器未设置");
    b.set_db_manager(std::sync::Arc::new(DatabaseManager::new("data".to_string())));
    assert!(b.require_database().is_ok());
}

#[test]
fn operators_by_name() {
    assert!(MatchOperator::from_name("Gte") == Some(MatchOperator::Gte));
    assert!(MatchOperator::from_name("gte").is_none());
    let op = MatchOperator::from_name("Gt").unwrap();
    assert!(op.match_value("5", "3", NumericComparison::Greater));
    assert!(!op.match_value("x", "3", NumericComparison::Unparsable));
}

#[test]
fn extensions_follow_the_file_name() {
    assert_eq!(mime_type_for("video", "/a/b.MP4"), "video/mp4");
    assert_eq!(mime_type_for("video", "/a/clip.mov/."), "video/quicktime");
    assert_eq!(mime_type_for("video", "/a/.mp4"), "application/octet-stream");
    assert_eq!(mime_type_for("video", "/a/b.mp4/.."), "application/octet-stream");
    assert_eq!(mime_type_for("video", "x.tar.webm"), "video/webm");
}
