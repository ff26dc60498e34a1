use mimick::queue_manager::dedup_tasks;
use mimick::queue_manager::{
    album_name_for_task, classify_upload, plan_album, AlbumPlan, FileTask, RetryList,
    UploadOutcome,
};
use mimick::state_manager::AppState;

fn task(path: &str, id: Option<&str>, name: Option<&str>) -> FileTask {
    FileTask {
        path: path.to_string(),
        checksum: "sha123".to_string(),
        album_id: id.map(|s| s.to_string()),
        album_name: name.map(|s| s.to_string()),
    }
}

#[test]
fn single_upload_returns_to_idle() {
    let mut s = AppState::default();
    s.note_enqueued();
    assert_eq!(s.total_queued, 1);
    assert_eq!(s.queue_size, 1);
    s.begin_upload("/a/b.jpg".to_string());
    s.refresh_progress(0);
    assert_eq!(s.status, "uploading");
    assert_eq!(s.active_workers, 1);
    assert_eq!(s.current_file.as_deref(), Some("/a/b.jpg"));
    let msg = s.finish_upload();
    assert_eq!(msg, Some("Processed 1 file(s).".to_string()));
    assert_eq!(s.status, "idle");
    assert_eq!(s.progress, 100);
    assert_eq!(s.queue_size, 0);
    assert_eq!(s.active_workers, 0);
    assert_eq!(s.current_file, None);
}

#[test]
fn batch_reports_uploading_until_drained() {
    let mut s = AppState::default();
    s.note_enqueued();
    s.note_enqueued();
    s.begin_upload("/a".to_string());
    assert_eq!(s.finish_upload(), None);
    assert_eq!(s.status, "uploading");
    assert_eq!(s.queue_size, 1);
    s.refresh_progress(50);
    assert_eq!(s.progress, 50);
    s.begin_upload("/b".to_string());
    s.note_failure();
    assert_eq!(s.finish_upload(), Some("Processed 1 file(s).".to_string()));
    assert_eq!(s.failed_count, 1);
}

#[test]
fn retry_bookkeeping() {
    let mut s = AppState::default();
    s.note_failure();
    s.note_requeued(1);
    assert_eq!(s.failed_count, 0);
    assert_eq!(s.total_queued, 1);
    s.note_requeued(3);
    assert_eq!(s.failed_count, 0);
    assert_eq!(s.total_queued, 4);
    let mut t = AppState::default();
    t.note_loaded_retries(0);
    assert_eq!(t.failed_count, 0);
    t.note_loaded_retries(2);
    assert_eq!(t.failed_count, 2);
    t.requeue_loaded_retries(2);
    assert_eq!(t.failed_count, 0);
    assert_eq!(t.total_queued, 2);
}

#[test]
fn progress_ignored_when_nothing_queued() {
    let mut s = AppState::default();
    s.refresh_progress(70);
    assert_eq!(s.progress, 0);
}

#[test]
fn retry_list_drains() {
    let mut r = RetryList::new();
    assert!(!r.needs_flush());
    r.record_failure(task("/a/1.jpg", None, None));
    assert!(r.needs_flush());
    let taken = r.drain();
    assert_eq!(taken.len(), 1);
    assert_eq!(taken[0].path, "/a/1.jpg");
    assert!(!r.needs_flush());
}

#[test]
fn upload_outcomes() {
    assert!(matches!(classify_upload(None), UploadOutcome::Failed));
    assert!(matches!(classify_upload(Some("DUPLICATE".to_string())), UploadOutcome::AlreadyOnServer));
    match classify_upload(Some("id7".to_string())) {
        UploadOutcome::Uploaded(id) => assert_eq!(id, "id7"),
        _ => panic!("expected an uploaded asset"),
    }
}

#[test]
fn album_choice_for_task() {
    assert_eq!(album_name_for_task(&task("/p/Vacation 2024/a.jpg", None, None)), "Vacation 2024");
    assert_eq!(album_name_for_task(&task("/p/x/a.jpg", None, Some("Album"))), "Album");
    assert_eq!(album_name_for_task(&task("/p/x/a.jpg", None, Some(""))), "x");
    assert_eq!(album_name_for_task(&task("/p/x/a.jpg", None, Some("Default (Folder Name)"))), "x");
    assert_eq!(album_name_for_task(&task("a.jpg", None, None)), "Mimick");
    match plan_album(&task("/a/b.jpg", Some("id1"), Some("Album"))) {
        AlbumPlan::UseId(id) => assert_eq!(id, "id1"),
        _ => panic!("expected the configured id"),
    }
    match plan_album(&task("/a/b.jpg", Some(""), Some("Album"))) {
        AlbumPlan::LookupOrCreate(n) => assert_eq!(n, "Album"),
        _ => panic!("expected a lookup"),
    }
}

#[test]
fn loaded_retries_are_deduplicated() {
    let loaded = vec![
        task("/a/1.jpg", None, None),
        task("/a/2.jpg", None, None),
        task("/a/1.jpg", Some("x"), None),
    ];
    let out = dedup_tasks(loaded);
    assert_eq!(out.len(), 2);
    assert_eq!(out[0].path, "/a/1.jpg");
    assert_eq!(out[0].album_id, None);
    assert_eq!(out[1].path, "/a/2.jpg");
}

#[test]
fn failure_then_success_hands_the_task_back() {
    let mut s = AppState::default();
    let mut r = RetryList::new();
    assert!(s.settle_upload(&mut r, task("/a/1.jpg", None, None), false).is_empty());
    assert_eq!(s.failed_count, 1);
    let back = s.settle_upload(&mut r, task("/a/2.jpg", None, None), true);
    assert_eq!(back.len(), 1);
    assert_eq!(back[0].path, "/a/1.jpg");
    assert_eq!(s.failed_count, 0);
    assert_eq!(s.total_queued, 1);
    assert!(!r.needs_flush());
}
