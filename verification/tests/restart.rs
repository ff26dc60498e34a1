use mimick::restart::{replacement_args, request_restart, take_restart_request, RestartFlag};

#[test]
fn test_restart_request_round_trip() {
    let mut flag = RestartFlag::new();
    request_restart(&mut flag);
    assert!(take_restart_request(&mut flag));
    assert!(!take_restart_request(&mut flag));
}

#[test]
fn replacement_command_line() {
    assert_eq!(replacement_args(true), vec!["--settings".to_string()]);
    assert!(replacement_args(false).is_empty());
}
