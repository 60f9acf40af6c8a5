use auto_matrix_manager::douyin_browser::{DouyinBrowser, PageKind, extract_user_info, cookie_header, storage_keys,
    keep_item, api_data_ready, api_data_from};
use auto_matrix_manager::browser::{BrowserAuthStep, script_config, script_result, ResultCollector,
    douyin_script_result, parse_douyin_result};
use auto_matrix_manager::extractor_engine::ExtractorConfig;
use auto_matrix_manager::playwright_env::{check_playwright_env, ensure_playwright_env, check_node_available,
    get_playwright_info, package_json, PlaywrightSetup, SetupAction};
use auto_matrix_manager::json::to_json_string;
use auto_matrix_manager::extractor_engine::LocalStorageItem;
use auto_matrix_manager::json::parse_json;

#[test]
fn a_run_goes_through_its_steps() {
    let mut b = DouyinBrowser::new().with_timeout(5);
    assert_eq!(b.timeout_seconds, 5);
    b.begin();
    assert_eq!(b.get_result().message, "正在启动浏览器...");
    assert!(b.launched(Ok(())).is_ok());
    assert!(b.session_open);
    b.opening_login_page();
    b.waiting_for_login();
    assert!(b.login_wait_done(false, "https://creator.douyin.com/creator-micro/x", "https://u").is_ok());
    assert!(matches!(b.result.step, BrowserAuthStep::LoginDetected));
    assert_eq!(b.result.current_url, "https://u");
    b.navigating_to_upload();
    b.extracting();
    let user = parse_json(r#"{"user":{"uid":"1","nickname":"Ann","avatar_thumb":{"url_list":["http://a"]}}}"#).ok();
    let items = vec![LocalStorageItem { key: "k".to_string(), value: "v".to_string() }];
    let r = b.complete(&user, &None, "sid=1".to_string(), &items);
    assert!(matches!(r.step, BrowserAuthStep::Completed));
    assert_eq!(r.message, "授权完成！账号: Ann");
    assert_eq!(r.local_storage, r#"[{"key":"k","value":"v"}]"#);
    assert_eq!(r.avatar_url, "http://a");
    assert!(!b.session_open);
}

#[test]
fn failures_end_the_run() {
    let mut b = DouyinBrowser::with_chrome_path("/bin/chrome".to_string());
    assert_eq!(b.launched(Err("no display".to_string())).err().unwrap(), "无法启动浏览器: no display");
    assert!(matches!(&b.result.step, BrowserAuthStep::Failed(m) if m == "无法启动浏览器: no display"));
    let mut c = DouyinBrowser::new();
    c.launched(Ok(())).ok();
    assert_eq!(c.login_wait_done(false, "https://login", "x").err().unwrap(), "等待登录超时，请确保扫码登录");
    assert!(!c.session_open);
    c.cancel();
    assert!(matches!(c.result.step, BrowserAuthStep::Idle));
    assert_eq!(c.result.message, "已取消授权");
}

#[test]
fn polled_pages_are_classified() {
    let mut b = DouyinBrowser::new();
    assert_eq!(b.polled("https://creator.douyin.com/creator-micro/home"), PageKind::Home);
    assert_eq!(b.polled("https://creator.douyin.com/creator-micro"), PageKind::Home);
    assert_eq!(b.polled("https://creator.douyin.com/creator-micro/content/upload"), PageKind::Upload);
    assert_eq!(b.polled("https://creator.douyin.com/creator-micro/data"), PageKind::CreatorOther);
    assert_eq!(b.result.message, "正在跳转到上传页面...");
    assert_eq!(b.polled("https://www.douyin.com/login"), PageKind::Login);
    assert!(matches!(b.result.step, BrowserAuthStep::WaitingForLogin));
    assert!(DouyinBrowser::poll_again(Some(PageKind::Login)));
    assert!(!DouyinBrowser::poll_again(Some(PageKind::Upload)));
    assert!(!DouyinBrowser::poll_again(None));
}

#[test]
fn user_fields_fall_back_to_the_account_answer() {
    let account = parse_json(r#"{"display_name":"Disp"}"#).ok();
    let (uid, nick, avatar) = extract_user_info(&None, &account);
    assert_eq!((uid.as_str(), nick.as_str(), avatar.as_str()), ("", "Disp", ""));
    let (_, nick, _) = extract_user_info(&None, &None);
    assert_eq!(nick, "抖音用户");
    let odd = parse_json(r#"{"display_name":5,"nickname":"N"}"#).ok();
    let (_, nick, _) = extract_user_info(&None, &odd);
    assert_eq!(nick, "抖音用户");
}

#[test]
fn page_captures_are_read() {
    assert_eq!(cookie_header(&vec![("a".to_string(), "1".to_string()), ("b".to_string(), "2".to_string())]), "a=1; b=2");
    assert_eq!(cookie_header(&vec![]), "");
    assert_eq!(storage_keys().len(), 7);
    assert!(!keep_item("security-sdk/s_sdk_cert_key", "abc"));
    assert!(keep_item("security-sdk/s_sdk_cert_key", "pub.abc"));
    assert!(keep_item("security-sdk/s_sdk_pri_key", "abc"));
    assert!(!keep_item("security-sdk/s_sdk_pri_key", ""));
    assert!(api_data_ready(r#"{"count":2,"hasUserInfo":false}"#, 2));
    assert!(api_data_ready(r#"{"count":0,"hasUserInfo":true,"hasAccountInfo":true}"#, 2));
    assert!(!api_data_ready(r#"{"count":1}"#, 2));
    assert!(!api_data_ready("oops", 2));
    let (u, a) = api_data_from(r#"{"userInfo":{"x":1},"accountInfo":null}"#);
    assert!(u.is_some());
    assert!(a.is_some());
    let (u, a) = api_data_from("oops");
    assert!(u.is_none() && a.is_none());
}

#[test]
fn script_configuration_text() {
    let c = ExtractorConfig {
        platform_id: "douyin".to_string(),
        platform_name: "抖音".to_string(),
        login_url: "https://l".to_string(),
        login_success_mode: "url_match".to_string(),
        login_success_pattern: "**/x/**".to_string(),
        login_success_api_rule: None,
        login_success_api_operator: Some("eq".to_string()),
        login_success_api_value: None,
        redirect_url: None,
        extract_rules: parse_json(r#"{"a":1}"#).unwrap(),
    };
    let text = script_config("douyin", Ok(Some(c))).ok().unwrap();
    assert_eq!(
        text,
        r#"{"extract_rules":{"a":1},"login_success_api_operator":"eq","login_success_api_rule":null,"login_success_api_value":null,"login_success_mode":"url_match","login_success_pattern":"**/x/**","login_url":"https://l","platform_id":"douyin","platform_name":"抖音","redirect_url":null}"#
    );
    assert_eq!(script_config("kuaishou", Ok(None)).err().unwrap(), "未找到平台配置: kuaishou");
    assert_eq!(script_config("douyin", Err("locked".to_string())).err().unwrap(), "读取配置失败: locked");
}

#[test]
fn script_run_results() {
    let mut c = ResultCollector::new();
    assert_eq!(script_result(false, Some(2), &c).err().unwrap(), "脚本执行失败, 退出码: Some(2)");
    assert_eq!(script_result(true, Some(0), &c).err().unwrap(), "未获取到结果");
    c.feed("noise");
    c.feed("RESULT_JSON_START");
    c.feed(r#"{"step":"completed","message":"ok","cookie":"k=v","user_info":{"nickname":"n"}}"#);
    c.feed("RESULT_JSON_END");
    let r = script_result(true, Some(0), &c).ok().unwrap();
    assert!(matches!(r.step, BrowserAuthStep::Completed));
    assert_eq!(r.cookie, "k=v");
    assert_eq!(r.nickname, "n");
    let mut f = ResultCollector::new();
    f.feed("RESULT_JSON_START");
    f.feed(r#"{"step":"failed","message":"denied"}"#);
    f.feed("RESULT_JSON_END");
    assert_eq!(script_result(true, Some(0), &f).err().unwrap(), "denied");
}

#[test]
fn playwright_environment_checks() {
    assert_eq!(check_playwright_env(None).err().unwrap(), "Playwright browsers directory not found");
    assert_eq!(check_playwright_env(Some(Err("denied".to_string()))).err().unwrap(),
        "Failed to read browsers directory: denied");
    assert_eq!(check_playwright_env(Some(Ok(vec![false, false]))).err().unwrap(),
        "No browsers installed for Playwright");
    assert!(check_playwright_env(Some(Ok(vec![false, true]))).is_ok());
    assert_eq!(ensure_playwright_env(Err("x".to_string()), Ok(())).err().unwrap(),
        "Playwright environment check failed: x");
    assert_eq!(ensure_playwright_env(Ok(()), Err("ro".to_string())).err().unwrap(),
        "Failed to create Playwright directory: ro");
    assert!(ensure_playwright_env(Ok(()), Ok(())).is_ok());
    assert_eq!(check_node_available(Ok(false)).err().unwrap(), "Node.js not available");
    assert_eq!(check_node_available(Err("missing".to_string())).err().unwrap(), "Failed to run node: missing");
    assert!(check_node_available(Ok(true)).is_ok());
}

#[test]
fn playwright_report() {
    let entries = vec![(true, "chromium-1200".to_string()), (false, "x.txt".to_string()), (true, "ffmpeg".to_string())];
    let v = get_playwright_info(Some("/home/u".to_string()), Some(Ok(entries))).ok().unwrap();
    assert_eq!(
        to_json_string(&v),
        r#"{"browsers":["chromium-1200","ffmpeg"],"browsers_dir":"/home/u/Library/Application Support/com.yzg.matrix/playwright/browsers","playwright_dir":"/home/u/Library/Application Support/com.yzg.matrix/playwright"}"#
    );
    let none = get_playwright_info(None, None).ok().unwrap();
    assert_eq!(
        to_json_string(&none),
        r#"{"browsers":[],"browsers_dir":"./Library/Application Support/com.yzg.matrix/playwright/browsers","playwright_dir":"./Library/Application Support/com.yzg.matrix/playwright"}"#
    );
}

#[test]
fn playwright_setup_steps() {
    let (mut s, a) = PlaywrightSetup::start(false, false);
    assert!(a == SetupAction::CreateModulesDir);
    assert!(s.advance(Ok(true)).ok().unwrap() == SetupAction::WritePackageJson);
    assert!(s.advance(Ok(true)).ok().unwrap() == SetupAction::RunNpmInstall);
    assert!(s.advance(Ok(true)).ok().unwrap() == SetupAction::InstallChromium);
    assert!(s.advance(Ok(true)).ok().unwrap() == SetupAction::Done);
    let (mut f, _) = PlaywrightSetup::start(false, true);
    assert!(f.advance(Ok(true)).is_ok());
    assert!(f.advance(Ok(true)).is_ok());
    assert_eq!(f.advance(Ok(false)).err().unwrap(), "安装 Playwright 失败");
    let (mut c, a) = PlaywrightSetup::start(true, false);
    assert!(a == SetupAction::InstallChromium);
    assert_eq!(c.advance(Err("no npx".to_string())).err().unwrap(), "安装 Chromium 失败: no npx");
    let (_, d) = PlaywrightSetup::start(true, true);
    assert!(d == SetupAction::Done);
    assert!(package_json().contains("\"playwright\": \"^1.50.0\""));
}

#[test]
fn douyin_script_results() {
    let mut c = ResultCollector::new();
    c.feed("RESULT_JSON_START");
    c.feed(r#"{"step":"completed","third_id":"42","third_param":{"cookie":"sid=1","local_data":[{"key":"k"}]}}"#);
    c.feed("RESULT_JSON_END");
    let r = douyin_script_result(true, &c).ok().unwrap();
    assert_eq!(r.nickname, "抖音用户");
    assert_eq!(r.third_id, "42");
    assert_eq!(r.cookie, "sid=1");
    assert_eq!(r.local_storage, r#"[{"key":"k"}]"#);
    assert_eq!(r.request_headers, r#"{"cookie":"sid=1","local_data":[{"key":"k"}]}"#);
    assert_eq!(r.message, "完成");
    assert_eq!(douyin_script_result(false, &c).err().unwrap(), "脚本执行失败");
    assert_eq!(parse_douyin_result(r#"{"step":"other"}"#).err().unwrap(), "完成");
    assert!(parse_douyin_result("{").err().unwrap().starts_with("解析结果失败: "));
}

#[test]
fn playwright_check_reports_what_needs_installing() {
    let chromium = vec![(true, "chromium-1200".to_string())];
    assert_eq!(auto_matrix_manager::browser::check_playwright_env(true, true, Some(chromium.clone())), (false, false));
    assert_eq!(auto_matrix_manager::browser::check_playwright_env(false, true, Some(chromium)), (true, false));
    assert_eq!(auto_matrix_manager::browser::check_playwright_env(true, false, None), (false, true));
    assert_eq!(auto_matrix_manager::browser::check_playwright_env(true, true, Some(vec![(false, "chromium-1".to_string())])),
        (false, true));
}
