use mimick::config::WatchPathEntry;
use mimick::settings_window::{
    album_choices, already_listed, connection_report, entry_for_row, initial_selection, initial_switches,
    must_reenable, reselect, row_album_name, status_display, wants_settings, BarFill,
};

fn albums() -> Vec<(String, String)> {
    vec![
        ("Trip".to_string(), "1".to_string()),
        ("Default (Folder Name)".to_string(), "0".to_string()),
        ("Home".to_string(), "2".to_string()),
    ]
}

#[test]
fn dropdown_entries() {
    assert_eq!(
        album_choices(&albums()),
        vec!["Default (Folder Name)", "Trip", "Home", "Custom Album..."]
    );
}

#[test]
fn dropdown_initial_and_restored_selection() {
    let c = album_choices(&albums());
    assert_eq!(initial_selection(Some("Home"), &c), (2, None));
    assert_eq!(initial_selection(Some("New"), &c), (3, Some("New".to_string())));
    assert_eq!(initial_selection(Some("Default (Folder Name)"), &c), (0, None));
    assert_eq!(initial_selection(None, &c), (0, None));
    assert_eq!(reselect("Home", &c), 2);
    assert_eq!(reselect("Gone", &c), 0);
    assert_eq!(reselect("Custom Album...", &c), 3);
}

#[test]
fn saved_entries() {
    assert_eq!(row_album_name(3, 4, "Mine", Some("Custom Album...".to_string())), "Mine");
    assert_eq!(row_album_name(1, 4, "Mine", Some("Trip".to_string())), "Trip");
    assert_eq!(row_album_name(1, 4, "Mine", None), "Default (Folder Name)");
    let list = vec![
        ("Trip".to_string(), "1".to_string()),
        ("Trip".to_string(), "5".to_string()),
    ];
    match entry_for_row("/p".to_string(), "Trip".to_string(), &list) {
        WatchPathEntry::WithConfig { path, album_id, album_name } => {
            assert_eq!(path, "/p");
            assert_eq!(album_id, Some("5".to_string()));
            assert_eq!(album_name, Some("Trip".to_string()));
        }
        _ => panic!("expected album settings"),
    }
    match entry_for_row("/p".to_string(), "New".to_string(), &list) {
        WatchPathEntry::WithConfig { album_id, .. } => assert_eq!(album_id, None),
        _ => panic!("expected album settings"),
    }
    assert!(matches!(
        entry_for_row("/p".to_string(), "Default (Folder Name)".to_string(), &list),
        WatchPathEntry::Simple(_)
    ));
    assert!(matches!(entry_for_row("/p".to_string(), String::new(), &list), WatchPathEntry::Simple(_)));
}

#[test]
fn folder_list_and_switches() {
    let listed = vec!["/a".to_string(), "/b".to_string()];
    assert!(already_listed(&listed, "/b"));
    assert!(!already_listed(&listed, "/c"));
    assert!(must_reenable(false, false));
    assert!(!must_reenable(false, true));
    assert!(!must_reenable(true, false));
}

#[test]
fn status_line() {
    let d = status_display("idle", 0, 5, 5, 2, None).unwrap();
    assert_eq!(d.title, "Offline / Waiting");
    assert_eq!(d.subtitle, "2 item(s) pending network");
    assert!(matches!(d.bar, BarFill::Full));
    let d = status_display("idle", 0, 5, 5, 0, None).unwrap();
    assert_eq!(d.title, "Idle");
    assert_eq!(d.subtitle, "Successfully processed 5 file(s)");
    let d = status_display("idle", 0, 0, 0, 0, None).unwrap();
    assert!(matches!(d.bar, BarFill::Empty));
    let d = status_display("uploading", 40, 2, 5, 0, Some("/p/a.jpg".to_string())).unwrap();
    assert_eq!(d.title, "Uploading (2/5)");
    assert_eq!(d.subtitle, "a.jpg");
    assert!(matches!(d.bar, BarFill::Percent(40)));
    let d = status_display("uploading", 40, 2, 5, 0, None).unwrap();
    assert_eq!(d.subtitle, "...");
    assert!(status_display("syncing", 0, 0, 0, 0, None).is_none());
}

#[test]
fn connection_dialog() {
    assert_eq!(
        connection_report(true, false),
        (
            "Connection Successful".to_string(),
            "Internal: OK\nExternal: FAILED\n\nActive Mode: LAN".to_string()
        )
    );
    assert_eq!(
        connection_report(false, true).1,
        "Internal: FAILED\nExternal: OK\n\nActive Mode: WAN"
    );
    assert_eq!(
        connection_report(false, false),
        (
            "Connection Failed".to_string(),
            "Could not connect to Immich at either address.".to_string()
        )
    );
}

#[test]
fn settings_on_command_line() {
    assert!(wants_settings(&vec!["mimick".to_string(), "--settings".to_string()], false));
    assert!(wants_settings(&vec!["mimick".to_string()], true));
    assert!(!wants_settings(&vec!["mimick".to_string()], false));
}

#[test]
fn window_opens_with_an_address_enabled() {
    assert_eq!(initial_switches(false, false), (true, true));
    assert_eq!(initial_switches(true, false), (true, false));
    assert_eq!(initial_switches(false, true), (false, true));
    assert_eq!(initial_switches(true, true), (true, true));
}
