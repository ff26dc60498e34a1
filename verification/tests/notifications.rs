use mimick::notifications::notification_args;

#[test]
fn notify_send_arguments() {
    let args = notification_args("Upload Complete", "Processed 2 file(s).", Some(100));
    assert_eq!(
        args,
        vec![
            "--app-name",
            "Mimick",
            "Upload Complete",
            "Processed 2 file(s).",
            "-h",
            "string:x-canonical-private-synchronous:mimick-progress",
            "-h",
            "int:value:100",
        ]
    );
    assert_eq!(notification_args("t", "m", None).len(), 6);
}
