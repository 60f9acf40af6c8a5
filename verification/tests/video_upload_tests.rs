use auto_matrix_manager::json::jstr;
use auto_matrix_manager::video_upload::{read_apply_answer, read_commit_answer, read_init_answer, MultipartUpload,
    VideoUploader, build_url_with_sorted_params, hex_i32, hex_u32, hex8_u32};

fn upload_pairs(v: &[(String, String)]) -> Vec<(&str, &str)> {
    v.iter().map(|(a, b)| (a.as_str(), b.as_str())).collect()
}

fn uploader() -> VideoUploader {
    VideoUploader::new(vec![("AccessKeyID".to_string(), jstr("AK"))], "third".to_string(), "UA".to_string())
}

#[test]
fn upload_completion_text_in_number_order() {
    let mut plan = MultipartUpload::new(12 * 1024 * 1024, "https://up/x".to_string(), "id1".to_string());
    assert_eq!(plan.total_parts(), 3);
    assert_eq!(plan.part(2), (3, 10485760, 2097152));
    assert_eq!(plan.part_url(2, 5242880), "https://up/x?phase=transfer&part_number=2&part_offset=5242880&uploadid=id1");
    plan.record(2, "bb".to_string(), true);
    plan.record(1, "aa".to_string(), true);
    plan.record(3, "cc".to_string(), false);
    assert_eq!(plan.finish().ok().unwrap(), "1:aa,2:bb");
    let mut failed = MultipartUpload::new(6 * 1024 * 1024, "u".to_string(), "i".to_string());
    failed.record(1, "x".to_string(), false);
    assert_eq!(failed.finish().err().unwrap(), "所有分片上传失败");
}

#[test]
fn upload_answers_read() {
    let ok = r#"{"Result":{"InnerUploadAddress":{"UploadNodes":[{"UploadHost":"h","Vid":"v","SessionKey":"k","StoreInfos":[{"StoreUri":"s","Auth":"a"}]}]}}}"#;
    let a = read_apply_answer(ok).ok().unwrap();
    assert_eq!(a.upload_url, "https://h/upload/v1/s");
    assert_eq!(a.video_id, "v");
    let reported = r#"{"ResponseMetadata":{"Error":{"Code":"E1","Message":"bad"}}}"#;
    assert_eq!(read_apply_answer(reported).err().unwrap(), "API错误: E1 - bad");
    assert!(read_apply_answer("not json").err().unwrap().starts_with("解析JSON失败: "));
    assert!(read_commit_answer("{}").is_ok());
    assert_eq!(read_commit_answer(reported).err().unwrap(), "API错误: E1 - bad");
    assert_eq!(read_init_answer(false, "500 Internal Server Error", "x").err().unwrap(),
        "初始化分片上传失败: HTTP 500 Internal Server Error, 响应: x");
    assert_eq!(read_init_answer(true, "200 OK", "").err().unwrap(), "初始化分片上传响应为空");
    assert_eq!(read_init_answer(true, "200 OK", r#"{"data":{"uploadid":"u9"}}"#).ok().unwrap(), "u9");
    assert_eq!(read_init_answer(true, "200 OK", r#"{"data":{}}"#).err().unwrap(), "获取UploadId失败");
}

#[test]
fn upload_request_pieces() {
    let up = uploader();
    assert_eq!(upload_pairs(&up.apply_headers()),
        vec![("User-Agent", "UA"), ("Referer", "https://creator.douyin.com/"), ("Sec-Gpc", "1")]);
    assert_eq!(upload_pairs(&up.commit_headers())[2], ("Content-Type", "application/json"));
    let init = up.multipart_init_headers("auth");
    assert_eq!(init.len(), 8);
    assert_eq!(upload_pairs(&init)[7], ("Content-Type", "application/json"));
    assert_eq!(upload_pairs(&up.part_headers("auth", 7, "0000000a"))[2], ("Content-Length", "7"));
    assert_eq!(upload_pairs(&up.complete_headers("auth"))[1], ("Content-Type", "text/plain;charset=UTF-8"));
    let params = up.apply_params(99);
    assert_eq!(upload_pairs(&params)[5], ("FileSize", "99"));
    let creds = up.build_credentials();
    assert_eq!(upload_pairs(&creds), vec![("ak", "AK")]);
    let url = build_url_with_sorted_params("https://v/", &vec![("b".to_string(), "2 3".to_string()), ("a".to_string(), "1".to_string())]);
    assert_eq!(url, "https://v/?a=1&b=2%203");
    assert_eq!(hex_u32(255), "ff");
    assert_eq!(hex_i32(-1), "ffffffff");
    assert_eq!(hex8_u32(10), "0000000a");
}
