use auto_matrix_manager::account_params::AccountParams;
use auto_matrix_manager::douyin_client::{DouyinClient, CsrfAnswer, challenge_sug_params, ms_token_params, mssdk_url};
use auto_matrix_manager::signature_v4::SignatureV4;
use auto_matrix_manager::json::{parse_json, to_json_string, JsonValue};

#[test]
fn test_account_params_from_json() {
    let json = r#"{
            "third_id": "123456",
            "third_param": {
                "cookie": "sessionid=abc123",
                "user-agent": "Mozilla/5.0",
                "local_data": [
                    {"key": "test_key", "value": "test_value"}
                ]
            }
        }"#;
    let params = AccountParams::from_json(json);
    assert_eq!(params.get_third_id(), "123456");
    assert_eq!(params.get_cookie(), "sessionid=abc123");
    assert_eq!(params.get_user_agent(), "Mozilla/5.0");
    assert_eq!(params.get_local_data().len(), 1);
}

#[test]
fn test_account_params_empty() {
    let params = AccountParams::from_json("");
    assert_eq!(params.get_third_id(), "");
    assert_eq!(params.get_cookie(), "");
}

#[test]
fn account_params_from_bad_json_are_empty() {
    let params = AccountParams::from_json("not json");
    assert_eq!(params.get_third_id(), "");
    assert_eq!(params.get_user_agent(), "");
    assert_eq!(params.get_local_data().len(), 0);
}

#[test]
fn test_build_url() {
    let client = DouyinClient::new("cookie".to_string(), "user-agent".to_string(), "123".to_string(), Vec::new());
    let params = vec![
        ("key1".to_string(), "value1".to_string()),
        ("key2".to_string(), "value2".to_string()),
    ];
    let url = client.build_url("https://example.com", "/api/test", Some(&params));
    assert!(url.contains("https://example.com/api/test"));
    assert!(url.contains("key1=value1"));
    assert!(url.contains("key2=value2"));
}

#[test]
fn build_url_without_params_is_base_and_endpoint() {
    let client = DouyinClient::new("c".to_string(), "u".to_string(), "1".to_string(), Vec::new());
    assert_eq!(client.build_url("https://example.com", "/api/test", None), "https://example.com/api/test");
}

#[test]
fn test_signature_v4() {
    let mut signer = SignatureV4::new();
    let credentials = vec![
        ("ak".to_string(), "test_access_key".to_string()),
        ("sk".to_string(), "test_secret_key".to_string()),
        ("st".to_string(), "test_session_token".to_string()),
        ("region".to_string(), "cn-north-1".to_string()),
        ("service".to_string(), "vod".to_string()),
    ];
    let headers = vec![("User-Agent".to_string(), "Mozilla/5.0".to_string())];
    let params = vec![
        ("Action".to_string(), "ApplyUploadInner".to_string()),
        ("Version".to_string(), "2020-11-19".to_string()),
    ];
    let result = signer.sign_request_headers("GET", "https://vod.bytedance.com/", &params, &headers, &[], &credentials);
    assert!(result.is_ok());
    let signed_headers = result.unwrap();
    assert!(signed_headers.iter().any(|(k, _)| k == "Authorization"));
    assert!(signed_headers.iter().any(|(k, _)| k == "X-Amz-Date"));
}

#[test]
fn json_text_round_trips_through_the_parser() {
    let v = parse_json(r#"{"b":[1,-2,"x"],"a":true,"c":null}"#).unwrap();
    assert_eq!(to_json_string(&v), r#"{"a":true,"b":[1,-2,"x"],"c":null}"#);
    assert!(matches!(parse_json("{").err(), Some(e) if !e.is_empty()));
    let s = JsonValue::Str("q\"\n".to_string());
    assert_eq!(to_json_string(&s), "\"q\\\"\\n\"");
}

fn client_pairs(v: &[(String, String)]) -> Vec<(&str, &str)> {
    v.iter().map(|(a, b)| (a.as_str(), b.as_str())).collect()
}

#[test]
fn client_request_headers_and_params() {
    let client = DouyinClient::new("c=1".to_string(), "UA".to_string(), "t".to_string(), Vec::new());
    assert_eq!(
        client_pairs(&client.get_headers("https://r")),
        vec![("Cookie", "c=1"), ("User-Agent", "UA"), ("Referer", "https://r"),
            ("Accept", "application/json, text/plain, */*"), ("Accept-Language", "zh-CN,zh;q=0.9")]
    );
    assert_eq!(client_pairs(&client.csrf_headers())[1], ("x-secsdk-csrf-version", "1.2.7"));
    assert_eq!(client_pairs(&client.ms_token_headers("tt"))[1], ("Cookie", "ttwid=tt"));
    assert_eq!(client_pairs(&client.post_base_headers())[0], ("Content-Type", "application/json; charset=utf-8"));
    assert_eq!(
        client_pairs(&challenge_sug_params("猫")),
        vec![("aid", "2906"), ("source", "challenge_create"), ("keyword", "猫")]
    );
    assert_eq!(client_pairs(&ms_token_params("m")), vec![("ms_appid", "2906"), ("msToken", "m")]);
    assert_eq!(mssdk_url(), "https://mssdk.bytedance.com");
}

#[test]
fn client_csrf_answers() {
    let mut client = DouyinClient::new("c".to_string(), "UA".to_string(), "t".to_string(), Vec::new());
    assert_eq!(client.csrf_token_answer("/p", CsrfAnswer::Failed("timeout".to_string())).err().unwrap(),
        "获取CSRF Token失败: timeout");
    assert_eq!(client.csrf_token_answer("/p", CsrfAnswer::Status("403 Forbidden".to_string())).err().unwrap(),
        "获取CSRF Token失败: HTTP 403 Forbidden");
    assert_eq!(client.csrf_token_answer("/p", CsrfAnswer::Header(None)).err().unwrap(),
        "获取CSRF Token失败：响应头中未找到x-ware-csrf-token");
    assert!(client.cached_csrf_token("/p").is_none());
    assert_eq!(client.csrf_token_answer("/p", CsrfAnswer::Header(Some("0001,tok".to_string()))).ok().unwrap(), "tok");
    assert_eq!(client.cached_csrf_token("/p").unwrap(), "tok");
}
