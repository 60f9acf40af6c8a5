use auto_matrix_manager::douyin_api::{BdTicketConfig, UploadAuth};
use auto_matrix_manager::json::parse_json;
use auto_matrix_manager::model::PlatformError;
use auto_matrix_manager::vod_uploader::{
    chunk, chunk_count, chunk_params, finish_body, finish_params, init_params, init_upload_id,
    parse_apply_inner, retry_after_failure, upload_mode, ChunkInfo, VideoUploader,
};

fn uploader() -> VideoUploader {
    VideoUploader::new(
        UploadAuth {
            access_key_id: "AK".to_string(),
            secret_access_key: "SK".to_string(),
            session_token: "ST".to_string(),
        },
        "third".to_string(),
        "UA".to_string(),
        BdTicketConfig { api_url: "https://ticket".to_string() },
    )
}

fn upload_error(r: Result<(String, String, String, String), PlatformError>) -> String {
    match r {
        Err(PlatformError::VideoUploadFailed(m)) => m,
        _ => panic!("expected an upload failure"),
    }
}

fn pairs(v: &[(String, String)]) -> Vec<(&str, &str)> {
    v.iter().map(|(a, b)| (a.as_str(), b.as_str())).collect()
}

#[test]
fn vod_apply_answer_read() {
    let data = parse_json(
        r#"{"Result":{"InnerUploadAddress":{"UploadNodes":[{"UploadHost":"up.example","Vid":"v1","SessionKey":"sk1","StoreInfos":[{"StoreUri":"a/b","Auth":"auth1"}]}]}}}"#,
    )
    .unwrap();
    let (url, auth, vid, sk) = parse_apply_inner(&data).ok().unwrap();
    assert_eq!(url, "https://up.example/upload/v1/a/b");
    assert_eq!(auth, "auth1");
    assert_eq!(vid, "v1");
    assert_eq!(sk, "sk1");
}

#[test]
fn vod_apply_answer_errors() {
    let reported = parse_json(r#"{"ResponseMetadata":{"Error":{"Message":"denied"}}}"#).unwrap();
    assert_eq!(upload_error(parse_apply_inner(&reported)), "denied [上传凭证]");
    let no_message = parse_json(r#"{"ResponseMetadata":{"Error":{}}}"#).unwrap();
    assert_eq!(upload_error(parse_apply_inner(&no_message)), "获取失败 [上传凭证]");
    let no_result = parse_json(r#"{}"#).unwrap();
    assert_eq!(upload_error(parse_apply_inner(&no_result)), "无效的响应格式");
    let no_nodes = parse_json(r#"{"Result":{"InnerUploadAddress":{"UploadNodes":[]}}}"#).unwrap();
    assert_eq!(upload_error(parse_apply_inner(&no_nodes)), "上传节点为空");
    let no_stores = parse_json(
        r#"{"Result":{"InnerUploadAddress":{"UploadNodes":[{"UploadHost":"h","StoreInfos":[]}]}}}"#,
    )
    .unwrap();
    assert_eq!(upload_error(parse_apply_inner(&no_stores)), "存储信息为空");
    let no_vid = parse_json(
        r#"{"Result":{"InnerUploadAddress":{"UploadNodes":[{"UploadHost":"h","StoreInfos":[{"StoreUri":"u","Auth":"a"}]}]}}}"#,
    )
    .unwrap();
    assert_eq!(upload_error(parse_apply_inner(&no_vid)), "获取Vid失败");
}

#[test]
fn vod_chunk_plan_drops_the_tail() {
    let size: u64 = 12 * 1024 * 1024;
    let count = chunk_count(size);
    assert_eq!(count, 2);
    assert_eq!(chunk(size, count, 0), (1, 0, 5242880));
    assert_eq!(chunk(size, count, 1), (2, 5242880, 5242880));
    assert_eq!(chunk_count(10 * 1024 * 1024), 2);
}

#[test]
fn vod_chunk_of_a_larger_count_takes_the_rest() {
    let size: u64 = 12 * 1024 * 1024;
    assert_eq!(chunk(size, 3, 2), (3, 10485760, 2097152));
}

#[test]
fn vod_finish_body_in_number_order() {
    let chunks = vec![
        ChunkInfo { part_number: 3, crc32: "cc".to_string() },
        ChunkInfo { part_number: 1, crc32: "aa".to_string() },
        ChunkInfo { part_number: 2, crc32: "bb".to_string() },
    ];
    assert_eq!(finish_body(&chunks), "1:aa,2:bb,3:cc");
    assert_eq!(finish_body(&Vec::new()), "");
}

#[test]
fn vod_requests() {
    let up = uploader();
    assert_eq!(
        pairs(&up.credentials()),
        vec![("ak", "AK"), ("sk", "SK"), ("st", "ST"), ("region", "cn-north-1"), ("service", "vod")]
    );
    let params = up.apply_params(1000);
    assert_eq!(params.len(), 9);
    assert_eq!(pairs(&params)[5], ("FileSize", "1000"));
    assert_eq!(pairs(&params)[7], ("user_id", "third"));
    assert!(params[8].1.chars().all(|c| c.is_ascii_hexdigit()));
    assert_eq!(
        pairs(&chunk_params(2, 5242880, "id9")),
        vec![("phase", "transfer"), ("part_number", "2"), ("part_offset", "5242880"), ("uploadid", "id9")]
    );
    assert_eq!(pairs(&init_params()), vec![("uploadmode", "part"), ("phase", "init")]);
    assert_eq!(
        pairs(&finish_params("id9")),
        vec![("uploadmode", "part"), ("phase", "finish"), ("uploadid", "id9")]
    );
    let headers = up.chunk_headers("auth", 42, "0000abcd");
    assert_eq!(pairs(&headers)[2], ("Content-Length", "42"));
    assert_eq!(pairs(&headers)[4], ("X-Storage-U", "third"));
}

#[test]
fn vod_init_answer_and_decisions() {
    let ok = parse_json(r#"{"data":{"uploadid":"u-1"}}"#).unwrap();
    assert_eq!(init_upload_id(&ok).ok().unwrap(), "u-1");
    let bad = parse_json(r#"{"data":{}}"#).unwrap();
    match init_upload_id(&bad) {
        Err(PlatformError::VideoUploadFailed(m)) => assert_eq!(m, "初始化分片上传失败"),
        _ => panic!("expected an upload failure"),
    }
    assert!(matches!(upload_mode(0), Err(PlatformError::InvalidInput(_))));
    assert_eq!(upload_mode(5242880).ok(), Some(true));
    assert_eq!(upload_mode(5242881).ok(), Some(false));
    assert!(retry_after_failure(0));
    assert!(retry_after_failure(1));
    assert!(!retry_after_failure(2));
}
