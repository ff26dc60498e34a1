use mimick::state_manager::AppState;

#[test]
fn test_app_state_default() {
    let state = AppState::default();
    assert_eq!(state.queue_size, 0);
    assert_eq!(state.status, "idle");
    assert_eq!(state.progress, 0);
}

#[test]
fn restored_state_is_idle() {
    let mut saved = AppState::default();
    saved.status = "uploading".to_string();
    saved.active_workers = 3;
    saved.processed_count = 7;
    let s = AppState::restored(saved);
    assert_eq!(s.status, "idle");
    assert_eq!(s.active_workers, 0);
    assert_eq!(s.processed_count, 7);
}
