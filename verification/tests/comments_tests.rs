use auto_matrix_manager::comments::{parse_comment, parse_comment_list, parse_reply_list, comment_total,
    DouyinCommentClient, CommentPager, CommentListResponse, Comment};
use auto_matrix_manager::douyin_api::BdTicketConfig;
use auto_matrix_manager::model::{UserAccount, PlatformType, AccountStatus, PlatformError};
use auto_matrix_manager::json::parse_json;

fn comment(id: &str, text: &str) -> Comment {
    Comment {
        id: id.to_string(), text: text.to_string(), create_time: "t".to_string(), digg_count: 3, reply_count: -1,
        user_id: "u".to_string(), user_nickname: "n".to_string(), user_avatar: String::new(), is_author: true,
        parent_id: None,
    }
}

fn page(ids: &[&str], has_more: bool, cursor: Option<&str>) -> CommentListResponse {
    CommentListResponse {
        comments: ids.iter().map(|i| comment(i, "x")).collect(),
        total_count: 0,
        has_more,
        cursor: cursor.map(|c| c.to_string()),
    }
}

#[test]
fn comment_records_are_read_with_defaults() {
    let v = parse_json(r#"{"cid":"c1","text":"hi","create_time":"2024","digg_count":5,"user":{"uid":"u1","nickname":"N","avatar_url":"http://a"},"text_extra":[{"type":1},{"type":2}],"parent_cid":"p"}"#).unwrap();
    let c = parse_comment(&v);
    assert_eq!(c.id, "c1");
    assert_eq!(c.digg_count, 5);
    assert_eq!(c.reply_count, 0);
    assert_eq!(c.user_avatar, "http://a");
    assert!(c.is_author);
    assert_eq!(c.parent_id.as_deref(), Some("p"));
    let empty = parse_comment(&parse_json("[]").unwrap());
    assert_eq!(empty.id, "");
    assert!(!empty.is_author);
}

#[test]
fn refused_answers_are_network_errors() {
    let v = parse_json(r#"{"status_code":8,"status_msg":"busy"}"#).unwrap();
    match parse_comment_list(&v) {
        Err(PlatformError::NetworkError(m)) => assert_eq!(m, "busy"),
        _ => panic!("expected a refusal"),
    }
    let v = parse_json(r#"{"comments":[]}"#).unwrap();
    match parse_reply_list(&v) {
        Err(PlatformError::NetworkError(m)) => assert_eq!(m, "获取回复失败"),
        _ => panic!("expected a refusal"),
    }
}

#[test]
fn comment_pages_are_read() {
    let v = parse_json(r#"{"status_code":0,"comments":[{"cid":"a"},{"cid":"b"}],"total_count":7,"has_more":true,"cursor":"20"}"#).unwrap();
    match parse_comment_list(&v) {
        Ok(p) => {
            assert_eq!(p.comments.len(), 2);
            assert_eq!(p.comments[1].id, "b");
            assert_eq!(p.total_count, 7);
            assert!(p.has_more);
            assert_eq!(p.cursor.as_deref(), Some("20"));
        }
        Err(_) => panic!("expected a page"),
    }
    assert_eq!(comment_total(&parse_json(r#"{"total_count":12}"#).unwrap()), 12);
}

#[test]
fn client_credentials_come_from_the_account() {
    let account = UserAccount {
        id: "1".to_string(), username: "u".to_string(), nickname: "n".to_string(), avatar_url: String::new(),
        platform: PlatformType::Douyin, params: r#"{"cookie":"c=1","user_agent":"UA"}"#.to_string(),
        status: AccountStatus::Active, created_at: String::new(),
    };
    let c = DouyinCommentClient::new(Some(account), BdTicketConfig::default());
    assert_eq!(c.get_cookie(), "c=1");
    assert_eq!(c.get_user_agent(), "UA");
    let none = DouyinCommentClient::new(None, BdTicketConfig::default());
    assert_eq!(none.get_cookie(), "");
    assert!(none.get_user_agent().starts_with("Mozilla/5.0 (Windows NT 10.0"));
    let q = c.comments_query("99", -5, 20);
    assert_eq!(q[1], ("page_size".to_string(), "20".to_string()));
    assert_eq!(q[2], ("cursor".to_string(), "-5".to_string()));
    assert_eq!(q[3], ("type".to_string(), "1".to_string()));
    assert_eq!(c.replies_query("99", "c7", 0, 10).len(), 4);
}

#[test]
fn paging_stops_at_the_maximum() {
    let mut p = CommentPager::new(Some(3));
    p.feed(page(&["a", "b"], true, Some("100")));
    assert!(!p.done);
    assert_eq!(p.cursor, 100);
    p.feed(page(&["c", "d"], true, None));
    assert!(p.done);
    let ids: Vec<&str> = p.comments.iter().map(|c| c.id.as_str()).collect();
    assert_eq!(ids, vec!["a", "b", "c"]);
}

#[test]
fn paging_advances_without_a_cursor_and_ends_on_the_last_page() {
    let mut p = CommentPager::new(None);
    p.feed(page(&["a"], true, Some("next")));
    assert_eq!(p.cursor, 100);
    p.feed(page(&["b"], false, None));
    assert!(p.done);
    assert_eq!(p.comments.len(), 2);
    let mut q = CommentPager::new(None);
    q.cursor = i64::MAX - 10;
    q.feed(page(&[], true, None));
    assert!(q.done);
}

#[test]
fn csv_export_quotes_the_text() {
    let c = DouyinCommentClient::new(None, BdTicketConfig::default());
    let csv = c.export_to_csv(&[comment("1", "say \"hi\", ok")]);
    assert_eq!(csv, "ID,内容,时间,点赞数,回复数,用户ID,用户昵称,是否作者\n1,\"say \"\"hi\"\", ok\",t,3,-1,u,n,true\n");
    assert_eq!(c.export_to_csv(&[]), "ID,内容,时间,点赞数,回复数,用户ID,用户昵称,是否作者\n");
}
