use mimick::monitor::EventGate;
use mimick::monitor::{
    accepts_event_path, is_media_file, sha1_hex, to_hex_lower, ChecksumBuilder, CompletionWatch,
    Debouncer, Monitor, WaitStep,
};

#[test]
fn test_compute_sha1_chunked() {
    let mut b = ChecksumBuilder::new();
    b.update(b"hello");
    b.update(b" ");
    b.update(b"world");
    let hash = b.finish_hex();
    assert_eq!(hash, "2aae6c35c94fcfb415dbe95f408b9ce91ee846ed");
}

#[test]
fn sha1_of_whole_buffer_and_empty() {
    assert_eq!(sha1_hex(b"hello world"), "2aae6c35c94fcfb415dbe95f408b9ce91ee846ed");
    assert_eq!(sha1_hex(b""), "da39a3ee5e6b4b0d3255bfef95601890afd80709");
}

#[test]
fn hex_rendering() {
    assert_eq!(to_hex_lower(&[0x00, 0x0f, 0xa0, 0xff]), "000fa0ff");
}

#[test]
fn media_filter() {
    assert!(is_media_file("/x/IMG.JPG"));
    assert!(is_media_file("/x/clip.mov"));
    assert!(is_media_file("/x/raw.DNG"));
    assert!(!is_media_file("/x/notes.txt"));
    assert!(!is_media_file("/x/noext"));
    assert!(accepts_event_path(true, false, "/x/a.png"));
    assert!(!accepts_event_path(false, false, "/x/a.png"));
    assert!(!accepts_event_path(true, true, "/x/a.png"));
}

#[test]
fn debounce_window() {
    let mut d = Debouncer::new();
    assert!(d.observe("/a.jpg".to_string(), 1_000_000_000));
    assert!(!d.observe("/a.jpg".to_string(), 2_500_000_000));
    assert!(!d.observe("/a.jpg".to_string(), 3_000_000_000));
    assert!(d.observe("/b.jpg".to_string(), 3_000_000_000));
    assert!(d.observe("/a.jpg".to_string(), 3_000_000_001));
}

#[test]
fn completion_needs_three_stable_checks() {
    let mut w = CompletionWatch::new(0);
    assert!(matches!(w.observe(Some(10), 1), WaitStep::KeepWaiting));
    assert!(matches!(w.observe(Some(20), 2), WaitStep::KeepWaiting));
    assert!(matches!(w.observe(Some(20), 3), WaitStep::KeepWaiting));
    assert!(matches!(w.observe(Some(20), 4), WaitStep::KeepWaiting));
    assert!(matches!(w.observe(Some(20), 5), WaitStep::Complete));
}

#[test]
fn completion_ignores_empty_files_and_gives_up() {
    let mut w = CompletionWatch::new(0);
    for t in 0..5 {
        assert!(matches!(w.observe(Some(0), t), WaitStep::KeepWaiting));
    }
    assert!(matches!(w.observe(None, 6), WaitStep::GiveUp));
    let w2 = CompletionWatch::new(10);
    assert!(!w2.timed_out(299_999_999_999 + 10));
    assert!(w2.timed_out(300_000_000_000 + 10));
    assert!(!w2.timed_out(5));
}

#[test]
fn monitor_keeps_paths() {
    let m = Monitor::new(vec!["/a".to_string(), "/b".to_string()]);
    assert_eq!(m.watch_paths(), &vec!["/a".to_string(), "/b".to_string()]);
}

#[test]
fn one_settle_wait_per_file() {
    let mut g = EventGate::new();
    assert!(g.let_through("/a.mp4".to_string(), 0));
    // still being written 3 s later: the wait is running, so no second one
    assert!(!g.let_through("/a.mp4".to_string(), 3_000_000_000));
    assert!(g.let_through("/b.mp4".to_string(), 3_000_000_000));
    g.release("/a.mp4");
    assert!(g.let_through("/a.mp4".to_string(), 6_000_000_000));
    g.release("/b.mp4");
    // released, but within the debounce window of its last pass
    assert!(!g.let_through("/b.mp4".to_string(), 4_000_000_000));
}
