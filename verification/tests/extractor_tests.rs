use auto_matrix_manager::comment_extractor::{DouyinCommentExtractor, generate_webid, generate_ms_token,
    parse_page_answer, comments_page, video_page, CommentStatus, PageResult};
use auto_matrix_manager::json::parse_json;
use auto_matrix_manager::model::PlatformError;

fn extractor(cookie: &str) -> DouyinCommentExtractor {
    DouyinCommentExtractor::new(cookie.to_string(), "UA".to_string(), "1".to_string(), Vec::new())
}

#[test]
fn extractors_need_a_cookie_and_a_user_agent() {
    match DouyinCommentExtractor::from_params(r#"{"third_id":"1","third_param":{"cookie":"c"}}"#) {
        Err(PlatformError::InvalidCredentials(m)) => assert_eq!(m, "账号参数不完整，缺少cookie或user_agent"),
        _ => panic!("expected a refusal"),
    }
    match DouyinCommentExtractor::from_params(r#"{"third_id":"1","third_param":{"cookie":"c","user-agent":"UA"}}"#) {
        Ok(x) => {
            assert_eq!(x.cookie, "c");
            assert_eq!(x.third_id, "1");
        }
        Err(_) => panic!("expected an extractor"),
    }
    assert_eq!(DouyinCommentExtractor::page_bounds(9999, -3), (500, 0));
    assert_eq!(DouyinCommentExtractor::page_bounds(0, 7), (1, 7));
}

#[test]
fn random_values_have_their_shape() {
    let w = generate_webid();
    assert_eq!(w.len(), 19);
    assert!(w.chars().all(|c| c.is_ascii_digit()));
    let t = generate_ms_token();
    assert_eq!(t.chars().count(), 107);
    assert!(t.chars().all(|c| c.is_ascii_alphanumeric() || c == '='));
}

#[test]
fn cookie_values_are_read_from_the_account_cookie() {
    let (t, w) = extractor("a=1; ttwid=T1 ; webid=123; ttwid=T2").parse_cookies_from_db();
    assert_eq!(t, "T2");
    assert_eq!(w, "123");
    let (_, w) = extractor("webid=12x").parse_cookies_from_db();
    assert_eq!(w.len(), 19);
    let (t, w) = extractor("").parse_cookies_from_db();
    assert_eq!(t, "");
    assert_eq!(w, "");
}

#[test]
fn set_cookie_headers_give_cookie_values() {
    let x = extractor("");
    let headers = vec!["a=b".to_string(), "ttwid=XYZ; Path=/".to_string(), "webid=77".to_string()];
    assert_eq!(x.extract_cookie_from_headers(&headers, "ttwid"), "XYZ");
    assert_eq!(x.extract_cookie_from_headers(&headers, "webid"), "77");
    assert_eq!(x.extract_cookie_from_headers(&headers, "other"), "");
    assert!(!x.extract_cookie_from_headers(&vec![], "ttwid").is_empty());
}

#[test]
fn webid_is_read_from_render_data() {
    let x = extractor("");
    let html = "<html><script id=\"RENDER_DATA\" type=\"application/json\">%7B%22user_unique_id%22%3A%22765%22%7D</script></html>";
    assert_eq!(x.extract_webid_from_html(html), "765");
    assert_eq!(x.extract_webid_from_html("<html></html>"), "");
    match x.ttwid_webid_from_page(&vec!["ttwid=T".to_string()], html) {
        Ok((t, w)) => {
            assert_eq!(t, "T");
            assert_eq!(w, "765");
        }
        Err(_) => panic!("expected ids"),
    }
    assert_eq!(x.ttwid_webid_from_page(&vec![], "<p/>").err().unwrap(), "未找到webid");
}

#[test]
fn page_requests_are_signed_and_addressed() {
    let u = comments_page("55", 0, 20, "W", "M");
    assert!(u.starts_with("https://www.douyin.com/aweme/v1/web/comment/list/?device_platform=webapp&aid=6383&channel=channel_pc_web&aweme_id=55&cursor=0&count=20&item_type=0"));
    assert!(u.ends_with("&webid=W&verifyFp=verify_lwg2oa43_Ga6DRjOO_v2cd_4NL7_AHTp_qMKyKlDdoqra&fp=verify_lwg2oa43_Ga6DRjOO_v2cd_4NL7_AHTp_qMKyKlDdoqra&msToken=M"));
    let x = DouyinCommentExtractor::new(String::new(), "Mozilla/5.0".to_string(), String::new(), Vec::new());
    let s = x.sign_url("https://h/p?device_platform=webapp&aid=6383", None);
    assert_eq!(s, "https://h/p?device_platform=webapp&aid=6383&a_bogus=cbd67b90c22cf1442244d8d15b70b019");
    assert_eq!(video_page("5"), "https://www.douyin.com/jingxuan?modal_id=5");
    let h = x.page_headers("5", "T");
    assert_eq!(h.last().unwrap().1, "ttwid=T;");
}

#[test]
fn page_answers_are_checked() {
    assert_eq!(parse_page_answer("").err().unwrap(), "响应为空");
    assert!(parse_page_answer("{").err().unwrap().starts_with("解析JSON失败: "));
    assert_eq!(parse_page_answer(r#"{"status_msg":"no"}"#).err().unwrap(), "API错误: no (code: -1)");
    assert_eq!(parse_page_answer(r#"{"status_code":5}"#).err().unwrap(), "API错误: 未知错误 (code: 5)");
    let p = parse_page_answer(r#"{"status_code":0,"total":3,"comments":[{"cid":"1"}]}"#).ok().unwrap();
    assert_eq!(p.total, 3);
    assert_eq!(p.comments.len(), 1);
}

#[test]
fn readable_records_become_stored_comments() {
    let x = extractor("");
    let recs = parse_json(r#"[{"cid":"c1","text":"t","user":{"uid":"u","nickname":"n","avatar_thumb":{"url_list":["http://a"]}},"digg_count":2,"create_time":0},{"cid":"c2","text":"t"}]"#).unwrap();
    let recs = match recs { auto_matrix_manager::json::JsonValue::Array(a) => a, _ => panic!("array") };
    let cs = x.parse_comments("aw", &recs, "then", "now");
    assert_eq!(cs.len(), 1);
    assert_eq!(cs[0].comment_id, "c1");
    assert_eq!(cs[0].user_avatar, "http://a");
    assert_eq!(cs[0].like_count, 2);
    assert_eq!(cs[0].create_time, "1970-01-01 00:00:00");
    assert_eq!(cs[0].status, CommentStatus::Completed);
    assert_eq!(cs[0].created_at, "now");
    let r = x.extract_result(Ok(PageResult { total: 9, comments: recs }), "aw", "then", "now");
    assert!(r.success);
    assert_eq!(r.total_extracted, 1);
    assert_eq!(r.total_in_aweme, 9);
    let r = x.extract_result(Err("timeout".to_string()), "aw", "then", "now");
    assert!(!r.success);
    assert_eq!(r.error_message.as_deref(), Some("提取评论失败: timeout"));
}
