use auto_matrix_manager::publish_progress::{starting_event, uploading_video_event, getting_ticket_event,
    publishing_event, completed_event, failed_event, ProgressStatus};

#[test]
fn progress_events_carry_their_stage() {
    let e = starting_event("t", "d", "a", "douyin", 5);
    assert_eq!((e.message.as_str(), e.progress, e.timestamp), ("开始发布", 0, 5));
    assert_eq!(e.status, ProgressStatus::Starting);
    assert_eq!(uploading_video_event("t", "d", "a", "douyin", 40, 1).message, "上传视频中... 40%");
    assert_eq!(getting_ticket_event("t", "d", "a", "douyin", 60, 1).message, "获取发布凭证... 60%");
    assert_eq!(publishing_event("t", "d", "a", "douyin", 80, 1).message, "发布中... 80%");
    let c = completed_event("t", "d", "a", "douyin", "done", 1);
    assert_eq!((c.progress, c.status), (100, ProgressStatus::Completed));
    let f = failed_event("t", "d", "a", "douyin", "bad", 1);
    assert_eq!((f.message.as_str(), f.progress, f.status), ("bad", 0, ProgressStatus::Failed));
}
